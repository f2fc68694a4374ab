//! The state that the containers of a pod share: how far its VM has booted, and how many
//! containers use it.

use crate::paths;
use crate::text;
use vstd::prelude::*;

verus! {

/// How far a pod's VM has booted.
#[derive(Debug)]
pub enum BootState {
    /// The hypervisor runs, but the VM has not been created.
    NotBooted,
    /// The first container is booting the VM.
    Booting,
    /// The VM runs and its agent answers.
    Booted,
    /// The VM could not be booted, for this reason.
    Failed(String),
}

/// How far a pod's VM has booted.
pub enum BootStateView {
    NotBooted,
    Booting,
    Booted,
    Failed(Seq<char>),
}

impl View for BootState {
    type V = BootStateView;

    open spec fn view(&self) -> BootStateView {
        match *self {
            BootState::NotBooted => BootStateView::NotBooted,
            BootState::Booting => BootStateView::Booting,
            BootState::Booted => BootStateView::Booted,
            BootState::Failed(s) => BootStateView::Failed(s@),
        }
    }
}

/// What a container does about booting.
#[derive(Debug, Clone, Copy, PartialEq, Eq, Structural)]
pub enum BootRole {
    /// It boots the VM.
    First,
    /// It waits until another has.
    Subsequent,
}

/// What a container that waits for the VM does.
#[derive(Debug)]
pub enum BootWait {
    /// It goes on.
    Go,
    /// It waits until it is notified, and looks again.
    Wait,
    /// It fails for this reason.
    Fail(String),
}

impl BootStateView {
    /// The state after a container claimed its role.
    pub open spec fn claimed(self) -> BootStateView {
        match self {
            BootStateView::NotBooted => BootStateView::Booting,
            _ => self,
        }
    }

    /// The state after the first container booted the VM, or failed to.
    pub open spec fn finished(self, error: Option<Seq<char>>) -> BootStateView {
        match error {
            Some(e) => BootStateView::Failed(e),
            None => BootStateView::Booted,
        }
    }
}

impl BootState {
    /// Claims a role for a container. Where the boot failed before, the error is its reason.
    pub fn claim(&mut self) -> (res: Result<BootRole, String>)
        ensures
            final(self)@ == old(self)@.claimed(),
            match res {
                Ok(BootRole::First) => old(self)@ is NotBooted,
                Ok(BootRole::Subsequent) => old(self)@ is Booting || old(self)@ is Booted,
                Err(e) => old(self)@ == BootStateView::Failed(e@),
            },
    {
        match &*self {
            BootState::NotBooted => {},
            BootState::Booting => {
                return Ok(BootRole::Subsequent);
            },
            BootState::Booted => {
                return Ok(BootRole::Subsequent);
            },
            BootState::Failed(e) => {
                return Err(e.clone());
            },
        }
        *self = BootState::Booting;
        Ok(BootRole::First)
    }

    /// Records how the boot ended. All containers that wait are then to be notified.
    pub fn finish(&mut self, error: Option<String>)
        ensures
            final(self)@ == old(self)@.finished(text::opt_string(error)),
    {
        match error {
            Some(e) => {
                *self = BootState::Failed(e);
            },
            None => {
                *self = BootState::Booted;
            },
        }
    }

    /// What a container that waits does.
    pub fn wait(&self) -> (res: BootWait)
        ensures
            match res {
                BootWait::Go => self@ is Booted,
                BootWait::Fail(e) => self@ == BootStateView::Failed(e@),
                BootWait::Wait => self@ is NotBooted || self@ is Booting,
            },
    {
        match self {
            BootState::Booted => BootWait::Go,
            BootState::Failed(e) => BootWait::Fail(e.clone()),
            BootState::NotBooted => BootWait::Wait,
            BootState::Booting => BootWait::Wait,
        }
    }
}

/// What can happen to a pod's VM while containers start.
pub enum BootStep {
    Claim,
    Finish(Option<Seq<char>>),
}

/// The state after some steps.
pub open spec fn after_steps(s: BootStateView, steps: Seq<BootStep>) -> BootStateView
    decreases steps.len(),
{
    if steps.len() == 0 {
        s
    } else {
        let before = after_steps(s, steps.drop_last());
        match steps.last() {
            BootStep::Claim => before.claimed(),
            BootStep::Finish(e) => before.finished(e),
        }
    }
}

/// Only the first container boots the VM: once a role was claimed, no later claim finds the VM not
/// booted, whatever happens in between.
pub proof fn law_only_first_boots(s: BootStateView, steps: Seq<BootStep>)
    requires
        steps.len() > 0,
        steps[0] is Claim,
    ensures
        !(after_steps(s, steps) is NotBooted),
    decreases steps.len(),
{
    if steps.len() > 1 {
        assert(steps.drop_last()[0] == steps[0]);
        law_only_first_boots(s, steps.drop_last());
    } else {
        assert(steps.drop_last() =~= Seq::<BootStep>::empty());
        assert(steps.last() == steps[0]);
    }
}

/// After a failed boot no container proceeds: each is told the same reason.
pub proof fn law_failed_boot_stays_failed(e: Seq<char>, claims: nat)
    ensures
        after_steps(
            BootStateView::Failed(e),
            Seq::new(claims, |i: int| BootStep::Claim),
        ) == BootStateView::Failed(e),
    decreases claims,
{
    let steps = Seq::new(claims, |i: int| BootStep::Claim);
    if claims > 0 {
        law_failed_boot_stays_failed(e, (claims - 1) as nat);
        assert(steps.drop_last() =~= Seq::new((claims - 1) as nat, |i: int| BootStep::Claim));
    }
}

/// How many containers use a VM. The sandbox itself counts.
#[derive(Debug)]
pub struct ContainerCount {
    count: usize,
}

impl ContainerCount {
    /// The number of containers.
    pub closed spec fn number(&self) -> usize {
        self.count
    }

    /// The count of a VM with nothing but its sandbox.
    pub fn new() -> (res: Self)
        ensures
            res.number() == 1,
    {
        ContainerCount { count: 1 }
    }

    /// Lets one more container use the VM, where fewer than `max` do. The sandbox does not count
    /// towards `max`.
    pub fn try_add_container(&mut self, max: usize) -> (added: bool)
        ensures
            added == has_room(old(self).number(), max),
            final(self).number() == count_with(old(self).number(), max),
    {
        if self.count <= max && self.count < usize::MAX {
            self.count = self.count + 1;
            true
        } else {
            false
        }
    }

    /// One container less uses the VM. The result says whether it was the last: the VM is then to
    /// be shut down.
    pub fn remove_container(&mut self) -> (last: bool)
        ensures
            last == (old(self).number() <= 1),
            final(self).number() == old(self).number().wrapping_sub(1),
    {
        let before: usize = self.count;
        self.count = self.count.wrapping_sub(1);
        before <= 1
    }
}

/// Whether a VM for `max` containers has room for one more. The sandbox, which is counted, takes
/// no room, and the count stays a machine number.
pub open spec fn has_room(count: usize, max: usize) -> bool {
    count <= max && count < usize::MAX
}

/// The count after one more container asked to use a VM for `max` of them.
pub open spec fn count_with(count: usize, max: usize) -> usize {
    if has_room(count, max) {
        (count + 1) as usize
    } else {
        count
    }
}

/// The name of a container's disk.
pub open spec fn disk_id_spec(container_id: Seq<char>) -> Seq<char> {
    "ctr-"@ + text::head_of(container_id, 12)
}

/// The name of a container's disk: the first twelve bytes of the container's name, behind a prefix.
pub fn disk_id(container_id: &str) -> (res: String)
    requires
        text::head_is_whole(container_id@, 12),
    ensures
        res@ == disk_id_spec(container_id@),
{
    text::join2("ctr-", text::head(container_id, 12))
}

/// The images that are removed with a container.
pub fn disk_images(container_id: &str, state_dir: &str) -> (res: Vec<String>)
    requires
        text::head_is_whole(container_id@, 12),
    ensures
        text::strings(res@) == seq![
            paths::joined(state_dir@, disk_id_spec(container_id@) + ".erofs"@),
            paths::joined(state_dir@, disk_id_spec(container_id@) + ".img"@),
        ],
{
    let id: String = disk_id(container_id);
    let erofs: String = text::join2(id.as_str(), ".erofs");
    let img: String = text::join2(id.as_str(), ".img");
    let mut out: Vec<String> = Vec::new();
    out.push(paths::join(state_dir, erofs.as_str()));
    out.push(paths::join(state_dir, img.as_str()));
    assert(text::strings(out@) =~= seq![
        paths::joined(state_dir@, disk_id_spec(container_id@) + ".erofs"@),
        paths::joined(state_dir@, disk_id_spec(container_id@) + ".img"@),
    ]);
    out
}

/// What deleting a container comes to.
#[derive(Debug)]
pub struct DeletePlan {
    /// The images to remove, as far as they exist.
    pub images: Vec<String>,
    /// Whether the VM goes too.
    pub last: bool,
    /// The `nsenter` argument lists that undo the VM's network, to be run before the VM is shut
    /// down, since the namespace may be used again.
    pub network: Vec<Vec<String>>,
}

/// Says what deleting a container comes to. A sandbox has no image of its own.
pub fn delete_plan(
    container_id: &str,
    is_sandbox: bool,
    state_dir: &str,
    count: &mut ContainerCount,
    tap: Option<&str>,
    netns: Option<&str>,
) -> (res: DeletePlan)
    requires
        is_sandbox || text::head_is_whole(container_id@, 12),
    ensures
        res.last == (old(count).number() <= 1),
        final(count).number() == old(count).number().wrapping_sub(1),
        text::strings(res.images@) == if is_sandbox {
            Seq::empty()
        } else {
            seq![
                paths::joined(state_dir@, disk_id_spec(container_id@) + ".erofs"@),
                paths::joined(state_dir@, disk_id_spec(container_id@) + ".img"@),
            ]
        },
        crate::tap::commands(res.network@) == if res.last && tap is Some && netns is Some {
            seq![
                crate::tap::in_netns(netns->Some_0@, crate::tap::qdisc_del(tap->Some_0@)),
                crate::tap::in_netns(netns->Some_0@, crate::tap::qdisc_del("eth0"@)),
                crate::tap::in_netns(netns->Some_0@, crate::tap::link_del(tap->Some_0@)),
            ]
        } else {
            Seq::empty()
        },
        text::strings(res.images@) == images_to_remove(is_sandbox, container_id@, state_dir@),
        crate::tap::commands(res.network@) == network_undone(
            res.last,
            text::opt_str(tap),
            text::opt_str(netns),
        ),
        (res.last, final(count).number()) == with_one_fewer(old(count).number()),
{
    let images: Vec<String> = if is_sandbox {
        Vec::new()
    } else {
        disk_images(container_id, state_dir)
    };
    assert(is_sandbox ==> text::strings(images@) =~= Seq::<Seq<char>>::empty());
    let last: bool = count.remove_container();
    let network: Vec<Vec<String>> = match (tap, netns) {
        (Some(t), Some(n)) => if last {
            crate::tap::cleanup_tap_in_netns(n, t)
        } else {
            Vec::new()
        },
        _ => Vec::new(),
    };
    assert(!(last && tap is Some && netns is Some) ==> crate::tap::commands(network@)
        =~= Seq::<Seq<Seq<char>>>::empty());
    DeletePlan { images, last, network }
}

/// A VM goes with its last container, and not before: after `n` containers came, for which there
/// was room, `n` of them and the sandbox have to go.
pub proof fn law_vm_goes_with_last_container(max: usize, n: nat, k: nat)
    requires
        n <= max,
        n < usize::MAX,
        k <= n,
    ensures
        (count_after(max, n, k) <= 1) == (k == n),
    decreases k,
{
    lemma_count_after(max, n, k);
}

/// What happens to the containers of a VM.
pub enum Density {
    /// One more asks to use it.
    Ask,
    /// One that uses it goes.
    Remove,
}

/// The count after some of that, on a VM for `max` containers.
pub open spec fn count_through(max: usize, steps: Seq<Density>) -> usize
    decreases steps.len(),
{
    if steps.len() == 0 {
        1
    } else {
        let before = count_through(max, steps.drop_last());
        match steps.last() {
            Density::Ask => count_with(before, max),
            Density::Remove => before.wrapping_sub(1),
        }
    }
}

/// Whether nothing is removed from a VM that nothing uses.
pub open spec fn removes_only_users(max: usize, steps: Seq<Density>) -> bool {
    forall|i: int|
        0 <= i < steps.len() && steps[i] is Remove ==> count_through(
            max,
            #[trigger] steps.take(i),
        ) > 0
}

/// A VM is never shared by more containers than it is meant for: besides its sandbox, at most
/// `max` use it, in whatever order they come and go.
pub proof fn law_density_is_limited(max: usize, steps: Seq<Density>)
    requires
        removes_only_users(max, steps),
    ensures
        count_through(max, steps) <= max + 1,
    decreases steps.len(),
{
    if steps.len() > 0 {
        let n = steps.len() - 1;
        assert(steps.drop_last() =~= steps.take(n));
        assert forall|i: int|
            0 <= i < n && steps.drop_last()[i] is Remove implies count_through(
            max,
            #[trigger] steps.drop_last().take(i),
        ) > 0 by {
            assert(steps.drop_last().take(i) =~= steps.take(i));
        }
        law_density_is_limited(max, steps.drop_last());
    }
}

/// The count after `n` containers came to a VM for `max` of them, and then `k` went.
pub open spec fn count_after(max: usize, n: nat, k: nat) -> usize
    decreases n + k,
{
    if k > 0 {
        count_after(max, n, (k - 1) as nat).wrapping_sub(1)
    } else if n > 0 {
        count_with(count_after(max, (n - 1) as nat, 0), max)
    } else {
        1
    }
}

proof fn lemma_count_after(max: usize, n: nat, k: nat)
    requires
        n <= max,
        n < usize::MAX,
        k <= n,
    ensures
        count_after(max, n, k) == 1 + n - k,
    decreases n + k,
{
    if k > 0 {
        lemma_count_after(max, n, (k - 1) as nat);
    } else if n > 0 {
        lemma_count_after(max, (n - 1) as nat, 0);
    }
}

/// Of all that claim the boot of a VM one is the first, and the others wait; what the first comes to
/// is what all see: that the VM runs, or the reason why it does not.
pub proof fn law_boot_has_one_outcome(e: Option<Seq<char>>, claims: Seq<BootStep>)
    requires
        forall|i: int| 0 <= i < claims.len() ==> #[trigger] claims[i] == BootStep::Claim,
    ensures
        BootStateView::NotBooted.claimed() == BootStateView::Booting,
        after_steps(BootStateView::Booting, claims) == BootStateView::Booting,
        after_steps(BootStateView::Booting.finished(e), claims) == match e {
            None => BootStateView::Booted,
            Some(r) => BootStateView::Failed(r),
        },
    decreases claims.len(),
{
    if claims.len() > 0 {
        let most = claims.drop_last();
        assert forall|i: int| 0 <= i < most.len() implies #[trigger] most[i] == BootStep::Claim by {
            assert(most[i] == claims[i]);
        }
        law_boot_has_one_outcome(e, most);
        assert(claims[claims.len() - 1] == BootStep::Claim);
    }
}

/// There is room for one more container exactly as long as no more than the limit use the VM, the
/// sandbox among them; a container that finds none leaves the count as it is.
pub proof fn law_room_up_to_limit(count: usize, max: usize)
    requires
        count < usize::MAX,
    ensures
        has_room(count, max) <==> count <= max,
        count <= max ==> count_with(count, max) == count + 1,
        count > max ==> count_with(count, max) == count,
{
}

/// The disk of a container is named after the first twelve characters of the container's name, so
/// containers whose names differ there have different disks.
pub proof fn law_disk_ids(a: Seq<char>, b: Seq<char>)
    requires
        vstd::utf8::is_ascii_chars(a),
        vstd::utf8::is_ascii_chars(b),
        a.len() >= 12,
        b.len() >= 12,
    ensures
        disk_id_spec(a) == "ctr-"@ + a.take(12),
        a.take(12) != b.take(12) ==> disk_id_spec(a) != disk_id_spec(b),
{
    text::lemma_head_ascii(a, 12);
    text::lemma_head_ascii(b, 12);
    let p = "ctr-"@;
    if p + a.take(12) == p + b.take(12) {
        assert((p + a.take(12)).skip(p.len() as int) =~= a.take(12));
        assert((p + b.take(12)).skip(p.len() as int) =~= b.take(12));
    }
}

/// The images that go with a container.
pub open spec fn images_to_remove(
    is_sandbox: bool,
    container_id: Seq<char>,
    state_dir: Seq<char>,
) -> Seq<Seq<char>> {
    if is_sandbox {
        Seq::empty()
    } else {
        seq![
            paths::joined(state_dir, disk_id_spec(container_id) + ".erofs"@),
            paths::joined(state_dir, disk_id_spec(container_id) + ".img"@),
        ]
    }
}

/// The commands that undo the network of a VM that goes.
pub open spec fn network_undone(
    last: bool,
    tap: Option<Seq<char>>,
    netns: Option<Seq<char>>,
) -> Seq<Seq<Seq<char>>> {
    if last && tap is Some && netns is Some {
        seq![
            crate::tap::in_netns(netns->Some_0, crate::tap::qdisc_del(tap->Some_0)),
            crate::tap::in_netns(netns->Some_0, crate::tap::qdisc_del("eth0"@)),
            crate::tap::in_netns(netns->Some_0, crate::tap::link_del(tap->Some_0)),
        ]
    } else {
        Seq::empty()
    }
}

/// Whether one that goes was the last to use a VM, and how many use it then.
pub open spec fn with_one_fewer(count: usize) -> (bool, usize) {
    (count <= 1, count.wrapping_sub(1))
}

/// The network of a VM is undone with its last user and not before: in its namespace the TAP device
/// loses its queueing discipline and then goes itself. Where there is no network, nothing is undone.
pub proof fn law_network_goes_with_vm(tap: Seq<char>, netns: Seq<char>, i: int)
    ensures
        network_undone(false, Some(tap), Some(netns)).len() == 0,
        network_undone(true, None, Some(netns)).len() == 0,
        network_undone(true, Some(tap), None).len() == 0,
        ({
            let c = network_undone(true, Some(tap), Some(netns));
            &&& c.len() == 3
            &&& 0 <= i < 3 ==> c[i][0] == "--net="@ + netns && c[i][1] == "--"@
            &&& c[0].skip(2) == seq!["tc"@, "qdisc"@, "del"@, "dev"@, tap, "ingress"@]
            &&& c[1].skip(2) == seq!["tc"@, "qdisc"@, "del"@, "dev"@, "eth0"@, "ingress"@]
            &&& c[2].skip(2) == seq!["ip"@, "link"@, "del"@, tap]
        }),
{
    let c = network_undone(true, Some(tap), Some(netns));
    assert(c[0].skip(2) =~= seq!["tc"@, "qdisc"@, "del"@, "dev"@, tap, "ingress"@]);
    assert(c[1].skip(2) =~= seq!["tc"@, "qdisc"@, "del"@, "dev"@, "eth0"@, "ingress"@]);
    assert(c[2].skip(2) =~= seq!["ip"@, "link"@, "del"@, tap]);
}

/// With a container go the images that bear its disk name in the state directory, of either kind; a
/// sandbox has none. One that goes is the last exactly where it is the only one.
pub proof fn law_what_goes_with_container(id: Seq<char>, dir: Seq<char>, count: usize)
    requires
        dir.len() > 0,
        dir.last() != '/',
    ensures
        images_to_remove(true, id, dir).len() == 0,
        images_to_remove(false, id, dir) == seq![
            dir + seq!['/'] + disk_id_spec(id) + ".erofs"@,
            dir + seq!['/'] + disk_id_spec(id) + ".img"@,
        ],
        count > 0 ==> with_one_fewer(count) == (count == 1, (count - 1) as usize),
{
    reveal_strlit("ctr-");
    let d = disk_id_spec(id);
    assert("ctr-"@[0] == 'c');
    assert(d[0] == 'c');
    assert((d + ".erofs"@)[0] == 'c' && (d + ".img"@)[0] == 'c');
    assert(dir.push('/') + (d + ".erofs"@) =~= dir + seq!['/'] + d + ".erofs"@);
    assert(dir.push('/') + (d + ".img"@) =~= dir + seq!['/'] + d + ".img"@);
}

} // verus!
