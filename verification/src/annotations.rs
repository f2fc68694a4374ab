//! Pod annotations and OCI resource limits, applied to the runtime configuration.
//!
//! An annotation's name is a prefix and a suffix. The prefix `io.cloudhv.` wins over
//! `io.katacontainers.`, which is read where the first has no value. A value that cannot be used
//! leaves the configuration as it was.

use crate::json;
use crate::json::{Json, JsonView};
use crate::text;
use crate::types::{RuntimeConfig, RuntimeConfigView};
use vstd::hash_map::StringHashMap;
use vstd::prelude::*;

verus! {

pub const CLOUDHV_PREFIX: &'static str = "io.cloudhv.";

pub const KATA_PREFIX: &'static str = "io.katacontainers.";

pub const SUFFIX_MEMORY: &'static str = "config.hypervisor.default_memory";

pub const SUFFIX_MEMORY_LIMIT: &'static str = "config.hypervisor.memory_limit";

pub const SUFFIX_VCPUS: &'static str = "config.hypervisor.default_vcpus";

pub const SUFFIX_MAX_VCPUS: &'static str = "config.hypervisor.default_max_vcpus";

pub const SUFFIX_KERNEL_PARAMS: &'static str = "config.hypervisor.kernel_params";

pub const SUFFIX_VIRTIO_MEM: &'static str = "config.hypervisor.enable_virtio_mem";

/// Minimum VM memory in MiB.
pub const MIN_MEMORY_MB: u64 = 128;

/// The value of the annotation with a suffix.
pub open spec fn resolved(a: Map<Seq<char>, String>, suffix: Seq<char>) -> Option<Seq<char>> {
    if a.contains_key(CLOUDHV_PREFIX@ + suffix) {
        Some(a[CLOUDHV_PREFIX@ + suffix]@)
    } else if a.contains_key(KATA_PREFIX@ + suffix) {
        Some(a[KATA_PREFIX@ + suffix]@)
    } else {
        None
    }
}

/// Reads an annotation, preferring `io.cloudhv.` over `io.katacontainers.`.
pub fn resolve_annotation<'a>(
    annotations: &'a StringHashMap<String>,
    suffix: &str,
) -> (res: Option<&'a str>)
    ensures
        text::opt_str(res) == resolved(annotations@, suffix@),
{
    let cloudhv_key: String = text::join2(CLOUDHV_PREFIX, suffix);
    let kata_key: String = text::join2(KATA_PREFIX, suffix);
    match annotations.get(cloudhv_key.as_str()) {
        Some(s) => Some(s.as_str()),
        None => match annotations.get(kata_key.as_str()) {
            Some(s) => Some(s.as_str()),
            None => None,
        },
    }
}

/// The boot memory becomes the value, where that is a number of at least the minimum.
pub open spec fn with_memory(c: RuntimeConfigView, val: Option<Seq<char>>) -> RuntimeConfigView {
    match val {
        Some(v) => match text::parsed(v, u64::MAX as nat) {
            Some(mb) => if mb >= MIN_MEMORY_MB {
                RuntimeConfigView { default_memory_mb: mb as u64, ..c }
            } else {
                c
            },
            None => c,
        },
        None => c,
    }
}

/// Memory that can be plugged in on top of the boot memory; `virtio-mem` replaces `acpi`, because
/// it can also give memory back.
pub open spec fn with_headroom(c: RuntimeConfigView, mb: u64) -> RuntimeConfigView {
    RuntimeConfigView {
        hotplug_memory_mb: mb,
        hotplug_method: if c.hotplug_method == "acpi"@ {
            "virtio-mem"@
        } else {
            c.hotplug_method
        },
        ..c
    }
}

/// Where the value is a number above the boot memory, the difference can be plugged in.
pub open spec fn with_memory_limit(
    c: RuntimeConfigView,
    val: Option<Seq<char>>,
) -> RuntimeConfigView {
    match val {
        Some(v) => match text::parsed(v, u64::MAX as nat) {
            Some(limit) => if limit > c.default_memory_mb {
                with_headroom(c, (limit - c.default_memory_mb) as u64)
            } else {
                c
            },
            None => c,
        },
        None => c,
    }
}

/// The vCPUs become the value, where that is a positive number.
pub open spec fn with_vcpus(c: RuntimeConfigView, val: Option<Seq<char>>) -> RuntimeConfigView {
    match val {
        Some(v) => match text::parsed(v, u32::MAX as nat) {
            Some(n) => if n > 0 {
                RuntimeConfigView { default_vcpus: n as u32, ..c }
            } else {
                c
            },
            None => c,
        },
        None => c,
    }
}

/// The vCPUs that a VM may be given while it runs: the value, where that is a positive number and
/// not below the vCPUs that the VM boots with.
pub open spec fn vcpu_ceiling(boot: u32, val: Option<Seq<char>>) -> Option<u32> {
    match val {
        Some(v) => match text::parsed(v, u32::MAX as nat) {
            Some(n) => if n > 0 && n >= boot {
                Some(n as u32)
            } else {
                None
            },
            None => None,
        },
        None => None,
    }
}

/// The value is appended to the kernel command line, after a space.
pub open spec fn with_kernel_params(
    c: RuntimeConfigView,
    val: Option<Seq<char>>,
) -> RuntimeConfigView {
    match val {
        Some(v) => if v.len() > 0 {
            RuntimeConfigView { kernel_args: c.kernel_args.push(' ') + v, ..c }
        } else {
            c
        },
        None => c,
    }
}

/// `c` in lower case, where it is an ASCII letter.
pub open spec fn lower(c: char) -> char {
    if 'A' <= c <= 'Z' {
        (c as u32 + 32) as char
    } else {
        c
    }
}

/// `s` with its ASCII letters in lower case.
pub open spec fn lowered(s: Seq<char>) -> Seq<char> {
    Seq::new(s.len(), |i: int| lower(s[i]))
}

/// What a word for a truth value says. No letter outside ASCII has one of these words' letters as
/// its lower case, so it is enough to look at ASCII letters.
pub open spec fn truth(v: Seq<char>) -> Option<bool> {
    let w = lowered(v);
    if w == "true"@ || w == "1"@ || w == "yes"@ {
        Some(true)
    } else if w == "false"@ || w == "0"@ || w == "no"@ {
        Some(false)
    } else {
        None
    }
}

/// The value chooses between `virtio-mem` and `acpi`.
pub open spec fn with_virtio_mem(
    c: RuntimeConfigView,
    val: Option<Seq<char>>,
) -> RuntimeConfigView {
    match val {
        Some(v) => match truth(v) {
            Some(true) => RuntimeConfigView { hotplug_method: "virtio-mem"@, ..c },
            Some(false) => RuntimeConfigView { hotplug_method: "acpi"@, ..c },
            None => c,
        },
        None => c,
    }
}

/// The configuration with the annotations applied, one after the other.
pub open spec fn applied(
    c: RuntimeConfigView,
    a: Map<Seq<char>, String>,
) -> RuntimeConfigView {
    let c = with_memory(c, resolved(a, SUFFIX_MEMORY@));
    let c = with_memory_limit(c, resolved(a, SUFFIX_MEMORY_LIMIT@));
    let c = with_vcpus(c, resolved(a, SUFFIX_VCPUS@));
    let c = with_kernel_params(c, resolved(a, SUFFIX_KERNEL_PARAMS@));
    with_virtio_mem(c, resolved(a, SUFFIX_VIRTIO_MEM@))
}

/// `s` with its ASCII letters in lower case.
pub fn to_lower(s: &str) -> (res: String)
    ensures
        res@ == lowered(s@),
{
    let x: Vec<char> = text::to_chars(s);
    let mut out: String = String::new();
    let mut i: usize = 0;
    while i < x.len()
        invariant
            i <= x@.len(),
            out@ =~= lowered(x@.take(i as int)),
        decreases x@.len() - i,
    {
        let c: char = x[i];
        if 'A' <= c && c <= 'Z' {
            out.push((c as u8 + 32) as char);
        } else {
            out.push(c);
        }
        i += 1;
    }
    assert(x@.take(x@.len() as int) =~= s@);
    out
}

/// What a word for a truth value says.
pub fn truth_of(s: &str) -> (res: Option<bool>)
    ensures
        res == truth(s@),
{
    let w: String = to_lower(s);
    if text::same(w.as_str(), "true") || text::same(w.as_str(), "1") || text::same(
        w.as_str(),
        "yes",
    ) {
        Some(true)
    } else if text::same(w.as_str(), "false") || text::same(w.as_str(), "0") || text::same(
        w.as_str(),
        "no",
    ) {
        Some(false)
    } else {
        None
    }
}

/// Lets `mb` MiB be plugged in.
fn set_headroom(config: &mut RuntimeConfig, mb: u64)
    ensures
        final(config)@ == with_headroom(old(config)@, mb),
{
    config.hotplug_memory_mb = mb;
    if text::same(config.hotplug_method.as_str(), "acpi") {
        config.hotplug_method = "virtio-mem".to_owned();
    }
}

/// Applies pod annotations to the runtime configuration.
pub fn apply_annotations(
    config: RuntimeConfig,
    annotations: &StringHashMap<String>,
) -> (res: RuntimeConfig)
    ensures
        res@ == applied(config@, annotations@),
{
    let mut config: RuntimeConfig = config;
    if let Some(val) = resolve_annotation(annotations, SUFFIX_MEMORY) {
        if let Some(mb) = text::parse_up_to(val, u64::MAX) {
            if mb >= MIN_MEMORY_MB {
                config.default_memory_mb = mb;
            }
        }
    }
    if let Some(val) = resolve_annotation(annotations, SUFFIX_MEMORY_LIMIT) {
        if let Some(limit_mb) = text::parse_up_to(val, u64::MAX) {
            if limit_mb > config.default_memory_mb {
                let headroom: u64 = limit_mb - config.default_memory_mb;
                set_headroom(&mut config, headroom);
            }
        }
    }
    if let Some(val) = resolve_annotation(annotations, SUFFIX_VCPUS) {
        if let Some(n) = text::parse_up_to(val, u32::MAX as u64) {
            if n > 0 {
                config.default_vcpus = n as u32;
            }
        }
    }
    if let Some(val) = resolve_annotation(annotations, SUFFIX_KERNEL_PARAMS) {
        if !val.is_empty() {
            config.kernel_args.push(' ');
            config.kernel_args.append(val);
        }
    }
    if let Some(val) = resolve_annotation(annotations, SUFFIX_VIRTIO_MEM) {
        match truth_of(val) {
            Some(true) => {
                config.hotplug_method = "virtio-mem".to_owned();
            },
            Some(false) => {
                config.hotplug_method = "acpi".to_owned();
            },
            None => {},
        }
    }
    config
}

/// The vCPUs that the annotations let a VM have while it runs. `config` is the configuration with
/// the annotations applied.
pub fn max_vcpus_from_annotations(
    config: &RuntimeConfig,
    annotations: &StringHashMap<String>,
) -> (res: Option<u32>)
    ensures
        res == vcpu_ceiling(
            config.default_vcpus,
            resolved(annotations@, SUFFIX_MAX_VCPUS@),
        ),
{
    if let Some(val) = resolve_annotation(annotations, SUFFIX_MAX_VCPUS) {
        if let Some(n) = text::parse_up_to(val, u32::MAX as u64) {
            if n > 0 && n >= config.default_vcpus as u64 {
                return Some(n as u32);
            }
        }
    }
    None
}

/// Whether a key names an annotation of this runtime.
pub open spec fn recognised(key: Seq<char>) -> bool {
    text::has_prefix(key, CLOUDHV_PREFIX@) || text::has_prefix(key, KATA_PREFIX@)
}

/// The object under `annotations` in an OCI specification, empty where there is none.
pub open spec fn annotation_entries(spec: JsonView) -> Map<Seq<char>, JsonView> {
    match spec.field("annotations"@) {
        Some(JsonView::Object(m)) => m,
        _ => Map::empty(),
    }
}

/// Whether `res` holds exactly the texts of `m` under recognised keys.
pub open spec fn collected(m: Map<Seq<char>, JsonView>, res: Map<Seq<char>, String>) -> bool {
    forall|k: Seq<char>|
        {
            &&& #[trigger] res.contains_key(k) <==> recognised(k) && m.contains_key(k)
                && m[k] is Text
            &&& res.contains_key(k) ==> m[k] == JsonView::Text(res[k]@)
        }
}

/// Collects the annotations of this runtime from a parsed OCI specification.
pub fn annotations_from_spec(spec: &Json) -> (res: StringHashMap<String>)
    ensures
        collected(annotation_entries(spec@), res@),
{
    let mut result: StringHashMap<String> = StringHashMap::new();
    if let Some(Json::Object(v)) = spec.get("annotations") {
        let mut i: usize = 0;
        assert(v@.take(0) =~= Seq::<(String, Json)>::empty());
        while i < v.len()
            invariant
                i <= v@.len(),
                collected(json::entries(v@.take(i as int)), result@),
            decreases v@.len() - i,
        {
            let key: &str = v[i].0.as_str();
            assert(v@.take(i + 1).drop_last() =~= v@.take(i as int));
            if text::starts_with(key, CLOUDHV_PREFIX) || text::starts_with(key, KATA_PREFIX) {
                match v[i].1.as_str() {
                    Some(s) => {
                        result.insert(key.to_owned(), s.to_owned());
                    },
                    None => {
                        result.remove(key);
                    },
                }
            }
            i += 1;
        }
        assert(v@.take(v@.len() as int) =~= v@);
    }
    result
}

/// The number of MiB in a positive number of bytes under `/linux/resources/memory`.
pub open spec fn memory_mb(spec: JsonView, key: Seq<char>) -> Option<u64> {
    match spec.at(seq!["linux"@, "resources"@, "memory"@, key]) {
        Some(v) => match v.as_signed() {
            Some(n) => if n > 0 {
                Some((n / 1048576) as u64)
            } else {
                None
            },
            None => None,
        },
        None => None,
    }
}

/// Reads a positive number of bytes under `/linux/resources/memory` as MiB.
fn memory_mb_of(spec: &Json, key: &str) -> (res: Option<u64>)
    ensures
        res == memory_mb(spec@, key@),
{
    let path: [&str; 4] = ["linux", "resources", "memory", key];
    assert(text::strs(path@) =~= seq!["linux"@, "resources"@, "memory"@, key@]);
    match spec.pointer(&path) {
        Some(v) => match v.as_i64() {
            Some(n) => if n > 0 {
                Some((n as u64) / (1024 * 1024))
            } else {
                None
            },
            None => None,
        },
        None => None,
    }
}

/// The memory request and limit of an OCI specification in MiB. The request is the reservation.
pub fn memory_resources_from_spec(spec: &Json) -> (res: (Option<u64>, Option<u64>))
    ensures
        res.0 == memory_mb(spec@, "reservation"@),
        res.1 == memory_mb(spec@, "limit"@),
{
    (memory_mb_of(spec, "reservation"), memory_mb_of(spec, "limit"))
}

/// A request of at least the minimum becomes the boot memory.
pub open spec fn with_request(c: RuntimeConfigView, request_mb: Option<u64>) -> RuntimeConfigView {
    match request_mb {
        Some(req) => if req >= MIN_MEMORY_MB {
            RuntimeConfigView { default_memory_mb: req, ..c }
        } else {
            c
        },
        None => c,
    }
}

/// A limit above the boot memory makes the difference pluggable, whatever was configured.
pub open spec fn with_limit(c: RuntimeConfigView, limit_mb: Option<u64>) -> RuntimeConfigView {
    match limit_mb {
        Some(limit) => if limit > c.default_memory_mb {
            with_headroom(c, (limit - c.default_memory_mb) as u64)
        } else {
            c
        },
        None => c,
    }
}

/// Applies OCI resource limits to the runtime configuration.
pub fn apply_resource_limits(
    config: RuntimeConfig,
    request_mb: Option<u64>,
    limit_mb: Option<u64>,
) -> (res: RuntimeConfig)
    ensures
        res@ == with_limit(with_request(config@, request_mb), limit_mb),
{
    let mut config: RuntimeConfig = config;
    if let Some(req) = request_mb {
        if req >= MIN_MEMORY_MB {
            config.default_memory_mb = req;
        }
    }
    if let Some(limit) = limit_mb {
        if limit > config.default_memory_mb {
            let headroom: u64 = limit - config.default_memory_mb;
            set_headroom(&mut config, headroom);
        }
    }
    config
}

/// A value under `io.cloudhv.` decides, whatever is under `io.katacontainers.`.
pub proof fn law_native_prefix_wins(a: Map<Seq<char>, String>, suffix: Seq<char>, other: String)
    requires
        a.contains_key(CLOUDHV_PREFIX@ + suffix),
    ensures
        resolved(a, suffix) == Some(a[CLOUDHV_PREFIX@ + suffix]@),
        resolved(a.remove(KATA_PREFIX@ + suffix), suffix) == resolved(a, suffix),
        resolved(a.insert(KATA_PREFIX@ + suffix, other), suffix) == resolved(a, suffix),
{
    lemma_prefixes_differ(suffix);
}

proof fn lemma_prefixes_differ(suffix: Seq<char>)
    ensures
        CLOUDHV_PREFIX@ + suffix != KATA_PREFIX@ + suffix,
{
    reveal_strlit("io.cloudhv.");
    reveal_strlit("io.katacontainers.");
    assert((CLOUDHV_PREFIX@ + suffix).len() != (KATA_PREFIX@ + suffix).len());
}

/// A value under `io.katacontainers.` counts where `io.cloudhv.` has none.
pub proof fn law_fallback_prefix(a: Map<Seq<char>, String>, suffix: Seq<char>)
    requires
        !a.contains_key(CLOUDHV_PREFIX@ + suffix),
        a.contains_key(KATA_PREFIX@ + suffix),
    ensures
        resolved(a, suffix) == Some(a[KATA_PREFIX@ + suffix]@),
{
}

/// Without annotations the configuration stays as it is.
pub proof fn law_no_annotations_no_change(c: RuntimeConfigView)
    ensures
        applied(c, Map::empty()) == c,
{
}

/// Annotations touch nothing but memory, vCPUs, kernel parameters and the hotplug method; the
/// kernel parameters only grow, and memory below the minimum is never asked for.
pub proof fn law_annotations_frame(c: RuntimeConfigView, a: Map<Seq<char>, String>)
    ensures
        ({
            let r = applied(c, a);
            &&& r == RuntimeConfigView {
                default_memory_mb: r.default_memory_mb,
                default_vcpus: r.default_vcpus,
                kernel_args: r.kernel_args,
                hotplug_memory_mb: r.hotplug_memory_mb,
                hotplug_method: r.hotplug_method,
                ..c
            }
            &&& text::has_prefix(r.kernel_args, c.kernel_args)
            &&& r.default_memory_mb == c.default_memory_mb || r.default_memory_mb >= MIN_MEMORY_MB
            &&& r.default_vcpus == c.default_vcpus || r.default_vcpus > 0
        }),
{
    let r = applied(c, a);
    assert(r.kernel_args.subrange(0, c.kernel_args.len() as int) =~= c.kernel_args);
}

/// A memory limit that is applied is what the VM can grow to: boot memory and headroom together.
pub proof fn law_annotated_limit_is_ceiling(
    c: RuntimeConfigView,
    a: Map<Seq<char>, String>,
    limit: nat,
)
    requires
        resolved(a, SUFFIX_MEMORY_LIMIT@) matches Some(v) && text::parsed(v, u64::MAX as nat)
            == Some(limit),
        limit > applied(c, a).default_memory_mb,
    ensures
        applied(c, a).default_memory_mb + applied(c, a).hotplug_memory_mb == limit,
{
}

/// A memory limit above the boot memory is what the VM can grow to, and memory that was plugged in
/// can be taken back; the boot memory never goes below the minimum.
pub proof fn law_resource_limit_is_ceiling(
    c: RuntimeConfigView,
    request_mb: Option<u64>,
    limit_mb: Option<u64>,
)
    ensures
        ({
            let r = with_limit(with_request(c, request_mb), limit_mb);
            &&& limit_mb matches Some(limit) ==> limit > r.default_memory_mb ==> {
                &&& r.default_memory_mb + r.hotplug_memory_mb == limit
                &&& r.hotplug_method != "acpi"@
            }
            &&& request_mb matches Some(req) ==> req >= MIN_MEMORY_MB ==> r.default_memory_mb
                == req
            &&& r.default_memory_mb == c.default_memory_mb || r.default_memory_mb >= MIN_MEMORY_MB
        }),
{
    reveal_strlit("acpi");
    reveal_strlit("virtio-mem");
    assert("acpi"@.len() != "virtio-mem"@.len());
}

/// The value that annotations give for a setting: the one under the runtime's own prefix, or else
/// the one under the prefix of Kata Containers.
pub open spec fn given(a: Map<Seq<char>, String>, suffix: Seq<char>, v: Seq<char>) -> bool {
    ||| a.contains_key("io.cloudhv."@ + suffix) && a["io.cloudhv."@ + suffix]@ == v
    ||| !a.contains_key("io.cloudhv."@ + suffix) && a.contains_key("io.katacontainers."@ + suffix)
        && a["io.katacontainers."@ + suffix]@ == v
}

/// Whether annotations give a value for a setting.
pub open spec fn is_given(a: Map<Seq<char>, String>, suffix: Seq<char>) -> bool {
    a.contains_key("io.cloudhv."@ + suffix) || a.contains_key("io.katacontainers."@ + suffix)
}

/// Each annotation sets what it is named for: boot memory of at least 128 MiB, a number of boot
/// processors above zero, more kernel parameters behind those there are, and the way memory is
/// plugged in. Without the annotation the setting stays.
pub proof fn law_annotations_take_effect(
    c: RuntimeConfigView,
    a: Map<Seq<char>, String>,
    v: Seq<char>,
    n: nat,
)
    ensures
        ({
            let r = applied(c, a);
            let memory = "config.hypervisor.default_memory"@;
            let vcpus = "config.hypervisor.default_vcpus"@;
            let kernel = "config.hypervisor.kernel_params"@;
            let plug = "config.hypervisor.enable_virtio_mem"@;
            &&& given(a, memory, v) && text::parsed(v, u64::MAX as nat) == Some(n) ==> (
            r.default_memory_mb == if n >= 128 {
                n as u64
            } else {
                c.default_memory_mb
            })
            &&& !is_given(a, memory) ==> r.default_memory_mb == c.default_memory_mb
            &&& given(a, vcpus, v) && text::parsed(v, u32::MAX as nat) == Some(n) ==> (
            r.default_vcpus == if n > 0 {
                n as u32
            } else {
                c.default_vcpus
            })
            &&& !is_given(a, vcpus) ==> r.default_vcpus == c.default_vcpus
            &&& given(a, kernel, v) && v.len() > 0 ==> r.kernel_args == c.kernel_args + seq![' ']
                + v
            &&& !is_given(a, kernel) ==> r.kernel_args == c.kernel_args
            &&& given(a, plug, v) && truth(v) == Some(true) ==> r.hotplug_method == "virtio-mem"@
            &&& given(a, plug, v) && truth(v) == Some(false) ==> r.hotplug_method == "acpi"@
        }),
{
    assert(c.kernel_args.push(' ') + v =~= c.kernel_args + seq![' '] + v);
}

/// A memory limit leaves the boot memory as it is. What may be plugged in is what the limit exceeds
/// the boot memory by; a limit that does not exceed it changes nothing, nor does the lack of one.
pub proof fn law_memory_limit_is_headroom(
    c: RuntimeConfigView,
    a: Map<Seq<char>, String>,
    v: Seq<char>,
    n: nat,
)
    ensures
        ({
            let r = applied(c, a);
            let limit = "config.hypervisor.memory_limit"@;
            &&& given(a, limit, v) && text::parsed(v, u64::MAX as nat) == Some(n) && n
                > r.default_memory_mb ==> r.hotplug_memory_mb == n - r.default_memory_mb
            &&& given(a, limit, v) && text::parsed(v, u64::MAX as nat) == Some(n) && n
                <= r.default_memory_mb ==> r.hotplug_memory_mb == c.hotplug_memory_mb
            &&& !is_given(a, limit) ==> r.hotplug_memory_mb == c.hotplug_memory_mb
        }),
{
}

/// What a container's resources say replaces the boot memory by a request of at least 128 MiB, and
/// the headroom by what a limit exceeds the boot memory by. Nothing else changes but, with the
/// headroom, the way memory is plugged in.
pub proof fn law_resources_take_effect(
    c: RuntimeConfigView,
    request_mb: Option<u64>,
    limit_mb: Option<u64>,
)
    ensures
        ({
            let r = with_limit(with_request(c, request_mb), limit_mb);
            &&& r.default_memory_mb == match request_mb {
                Some(n) => if n >= 128 {
                    n
                } else {
                    c.default_memory_mb
                },
                None => c.default_memory_mb,
            }
            &&& r.hotplug_memory_mb == match limit_mb {
                Some(n) => if n > r.default_memory_mb {
                    (n - r.default_memory_mb) as u64
                } else {
                    c.hotplug_memory_mb
                },
                None => c.hotplug_memory_mb,
            }
            &&& r == RuntimeConfigView {
                default_memory_mb: r.default_memory_mb,
                hotplug_memory_mb: r.hotplug_memory_mb,
                hotplug_method: r.hotplug_method,
                ..c
            }
            &&& limit_mb is None ==> r.hotplug_method == c.hotplug_method
        }),
{
}

/// A ceiling for the processors is taken from its annotation where it is a number above zero that
/// the boot processors do not exceed.
pub proof fn law_vcpu_ceiling(boot: u32, v: Seq<char>, n: nat)
    ensures
        text::parsed(v, u32::MAX as nat) == Some(n) && n > 0 && n >= boot ==> vcpu_ceiling(
            boot,
            Some(v),
        ) == Some(n as u32),
        text::parsed(v, u32::MAX as nat) == Some(n) && (n == 0 || n < boot) ==> vcpu_ceiling(
            boot,
            Some(v),
        ) is None,
        vcpu_ceiling(boot, None) is None,
        text::parsed(v, u32::MAX as nat) is None ==> vcpu_ceiling(boot, Some(v)) is None,
        SUFFIX_MAX_VCPUS@ == "config.hypervisor.default_max_vcpus"@,
{
}

/// A switch is on or off whatever the case of its letters, and is neither where it says neither.
pub proof fn law_truth(v: Seq<char>, w: Seq<char>)
    ensures
        lowered(v) == lowered(w) ==> truth(v) == truth(w),
        truth(v) == Some(true) <==> (lowered(v) == "true"@ || lowered(v) == "1"@ || lowered(v)
            == "yes"@),
        truth(v) == Some(false) ==> (lowered(v) == "false"@ || lowered(v) == "0"@ || lowered(v)
            == "no"@),
        lowered(v) == "false"@ || lowered(v) == "0"@ || lowered(v) == "no"@ ==> truth(v) == Some(
            false,
        ),
        lowered(v).len() == v.len(),
        forall|i: int|
            0 <= i < v.len() ==> #[trigger] lowered(v)[i] == if 'A' <= v[i] && v[i] <= 'Z' {
                (v[i] as u32 + ('a' as u32 - 'A' as u32)) as char
            } else {
                v[i]
            },
{
    reveal_strlit("true");
    reveal_strlit("1");
    reveal_strlit("yes");
    reveal_strlit("false");
    reveal_strlit("0");
    reveal_strlit("no");
    assert("true"@.len() == 4 && "1"@.len() == 1 && "yes"@.len() == 3 && "false"@.len() == 5
        && "0"@.len() == 1 && "no"@.len() == 2);
    assert("1"@[0] == '1' && "0"@[0] == '0');
}

/// A memory figure of a specification is given in bytes and counted in whole MiB: as many as fit in
/// it. Without a figure above zero there is none.
pub proof fn law_memory_in_mib(m: JsonView, spec: JsonView, key: Seq<char>, n: int)
    requires
        spec.field("linux"@) matches Some(l) && (l.field("resources"@) matches Some(r) && r.field(
            "memory"@,
        ) == Some(m)),
        m.field(key) == Some(JsonView::Integer(n)),
        i64::MIN <= n <= i64::MAX,
    ensures
        n > 0 ==> (memory_mb(spec, key) matches Some(mb) && mb * 1024 * 1024 <= n < (mb + 1) * 1024
            * 1024),
        n <= 0 ==> memory_mb(spec, key) is None,
{
    reveal_with_fuel(JsonView::at, 5);
    let p = seq!["linux"@, "resources"@, "memory"@, key];
    assert(p.skip(1) =~= seq!["resources"@, "memory"@, key]);
    assert(p.skip(1).skip(1) =~= seq!["memory"@, key]);
    assert(p.skip(1).skip(1).skip(1) =~= seq![key]);
    assert(p.skip(1).skip(1).skip(1).skip(1) =~= Seq::<Seq<char>>::empty());
    assert(spec.at(p) == Some(JsonView::Integer(n)));
}

} // verus!
