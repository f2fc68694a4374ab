use cloudhv::annotations::{
    annotations_from_spec, apply_annotations, apply_resource_limits, memory_resources_from_spec,
};
use cloudhv::json;
use cloudhv::text;
use cloudhv::types::RuntimeConfig;

fn default_config() -> RuntimeConfig {
    RuntimeConfig {
        cloud_hypervisor_binary: String::new(),
        virtiofsd_binary: String::new(),
        kernel_path: String::new(),
        rootfs_path: String::new(),
        default_vcpus: 1,
        default_memory_mb: 512,
        vsock_port: 0,
        agent_startup_timeout_secs: 10,
        kernel_args: "console=hvc0".to_string(),
        debug: false,
        pool_size: 0,
        max_containers_per_vm: 1,
        hotplug_memory_mb: 0,
        hotplug_method: "acpi".to_string(),
        tpm_enabled: false,
    }
}

fn annotated(entries: &[(&str, &str)]) -> RuntimeConfig {
    let mut ann = text::empty_table();
    for (k, v) in entries {
        ann.insert(k.to_string(), v.to_string());
    }
    apply_annotations(default_config(), &ann)
}

#[test]
fn test_cloudhv_annotation_sets_memory() {
    let config = annotated(&[("io.cloudhv.config.hypervisor.default_memory", "2048")]);
    assert_eq!(config.default_memory_mb, 2048);
}

#[test]
fn test_kata_annotation_sets_memory() {
    let config = annotated(&[("io.katacontainers.config.hypervisor.default_memory", "1024")]);
    assert_eq!(config.default_memory_mb, 1024);
}

#[test]
fn test_cloudhv_wins_over_kata() {
    let config = annotated(&[
        ("io.katacontainers.config.hypervisor.default_memory", "1024"),
        ("io.cloudhv.config.hypervisor.default_memory", "4096"),
    ]);
    assert_eq!(config.default_memory_mb, 4096);
}

#[test]
fn test_vcpu_annotation() {
    let config = annotated(&[("io.cloudhv.config.hypervisor.default_vcpus", "4")]);
    assert_eq!(config.default_vcpus, 4);
}

#[test]
fn test_kata_vcpu_fallback() {
    let config = annotated(&[("io.katacontainers.config.hypervisor.default_vcpus", "8")]);
    assert_eq!(config.default_vcpus, 8);
}

#[test]
fn test_no_annotations_preserves_defaults() {
    let config = annotated(&[]);
    assert_eq!(config.default_memory_mb, 512);
    assert_eq!(config.default_vcpus, 1);
}

#[test]
fn test_invalid_value_ignored() {
    let config = annotated(&[("io.cloudhv.config.hypervisor.default_memory", "not-a-number")]);
    assert_eq!(config.default_memory_mb, 512);
}

#[test]
fn test_memory_below_minimum_ignored() {
    let config = annotated(&[("io.cloudhv.config.hypervisor.default_memory", "64")]);
    assert_eq!(config.default_memory_mb, 512);
}

#[test]
fn test_zero_vcpus_ignored() {
    let config = annotated(&[("io.cloudhv.config.hypervisor.default_vcpus", "0")]);
    assert_eq!(config.default_vcpus, 1);
}

#[test]
fn test_kernel_params_appended() {
    let config = annotated(&[("io.cloudhv.config.hypervisor.kernel_params", "quiet loglevel=0")]);
    assert_eq!(config.kernel_args, "console=hvc0 quiet loglevel=0");
}

#[test]
fn test_virtio_mem_annotation() {
    let config = annotated(&[("io.katacontainers.config.hypervisor.enable_virtio_mem", "true")]);
    assert_eq!(config.hotplug_method, "virtio-mem");
}

#[test]
fn test_annotations_from_spec() {
    let spec = json::parse(
        r#"{
            "annotations": {
                "io.cloudhv.config.hypervisor.default_memory": "2048",
                "io.katacontainers.config.hypervisor.default_vcpus": "4",
                "io.kubernetes.cri.container-type": "sandbox",
                "unrelated.annotation": "ignored"
            }
        }"#,
    )
    .unwrap();
    let annotations = annotations_from_spec(&spec);
    assert_eq!(annotations.len(), 2);
    assert_eq!(
        annotations.get("io.cloudhv.config.hypervisor.default_memory").unwrap(),
        "2048"
    );
    assert_eq!(
        annotations.get("io.katacontainers.config.hypervisor.default_vcpus").unwrap(),
        "4"
    );
}

#[test]
fn test_multiple_annotations_combined() {
    let config = annotated(&[
        ("io.cloudhv.config.hypervisor.default_memory", "2048"),
        ("io.katacontainers.config.hypervisor.default_vcpus", "4"),
        ("io.cloudhv.config.hypervisor.kernel_params", "debug"),
    ]);
    assert_eq!(config.default_memory_mb, 2048);
    assert_eq!(config.default_vcpus, 4);
    assert!(config.kernel_args.contains("debug"));
}

#[test]
fn test_memory_limit_enables_hotplug() {
    let config = annotated(&[
        ("io.cloudhv.config.hypervisor.default_memory", "128"),
        ("io.cloudhv.config.hypervisor.memory_limit", "1024"),
    ]);
    assert_eq!(config.default_memory_mb, 128);
    assert_eq!(config.hotplug_memory_mb, 896);
    assert_eq!(config.hotplug_method, "virtio-mem");
}

#[test]
fn test_memory_limit_below_request_no_hotplug() {
    let config = annotated(&[
        ("io.cloudhv.config.hypervisor.default_memory", "512"),
        ("io.cloudhv.config.hypervisor.memory_limit", "256"),
    ]);
    assert_eq!(config.default_memory_mb, 512);
    assert_eq!(config.hotplug_memory_mb, 0);
}

#[test]
fn test_resource_limits_from_spec() {
    let spec = json::parse(
        r#"{"linux": {"resources": {"memory": {"limit": 1073741824, "reservation": 134217728}}}}"#,
    )
    .unwrap();
    let (req, lim) = memory_resources_from_spec(&spec);
    assert_eq!(req, Some(128));
    assert_eq!(lim, Some(1024));
}

#[test]
fn test_apply_resource_limits_enables_hotplug() {
    let config = apply_resource_limits(default_config(), Some(128), Some(1024));
    assert_eq!(config.default_memory_mb, 128);
    assert_eq!(config.hotplug_memory_mb, 896);
    assert_eq!(config.hotplug_method, "virtio-mem");
}

#[test]
fn test_apply_resource_limits_no_limit() {
    let config = apply_resource_limits(default_config(), Some(256), None);
    assert_eq!(config.default_memory_mb, 256);
    assert_eq!(config.hotplug_memory_mb, 0);
}

#[test]
fn test_apply_resource_limits_limit_equals_request() {
    let config = apply_resource_limits(default_config(), Some(512), Some(512));
    assert_eq!(config.default_memory_mb, 512);
    assert_eq!(config.hotplug_memory_mb, 0);
}

#[test]
fn invalid_native_value_hides_the_fallback() {
    let config = annotated(&[
        ("io.cloudhv.config.hypervisor.default_memory", "lots"),
        ("io.katacontainers.config.hypervisor.default_memory", "1024"),
    ]);
    assert_eq!(config.default_memory_mb, 512);
}

#[test]
fn virtio_mem_can_be_switched_off_in_any_case() {
    let mut config = default_config();
    config.hotplug_method = "virtio-mem".to_string();
    let mut ann = text::empty_table();
    ann.insert(
        "io.cloudhv.config.hypervisor.enable_virtio_mem".to_string(),
        "FALSE".to_string(),
    );
    let config = apply_annotations(config, &ann);
    assert_eq!(config.hotplug_method, "acpi");
}

#[test]
fn unlimited_memory_is_no_limit() {
    let spec =
        json::parse(r#"{"linux": {"resources": {"memory": {"limit": -1, "reservation": 0}}}}"#)
            .unwrap();
    assert_eq!(memory_resources_from_spec(&spec), (None, None));
}

#[test]
fn a_request_below_the_minimum_is_ignored() {
    let config = apply_resource_limits(default_config(), Some(127), None);
    assert_eq!(config.default_memory_mb, 512);
}

#[test]
fn a_limit_replaces_the_configured_headroom() {
    let mut config = default_config();
    config.hotplug_memory_mb = 1024;
    config.hotplug_method = "acpi".to_string();
    let config = apply_resource_limits(config, Some(512), Some(1024));
    assert_eq!(config.default_memory_mb, 512);
    assert_eq!(config.hotplug_memory_mb, 512);
    assert_eq!(config.hotplug_method, "virtio-mem");
}
