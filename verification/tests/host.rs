use cloudhv::cgroup::{
    cgroup_files, place_in_pod_cgroup, strip_slashes, to_systemd_cgroup_path, CgroupPresence,
};
use cloudhv::error::CloudHvError;
use cloudhv::hypervisor::{check_virtualization_support, detect_hypervisor, HypervisorBackend};
use cloudhv::image_cache::{sanitize_digest, ImageLayerCache};
use cloudhv::mountinfo::{erofs_cache_key_from_mountinfo, existing, find_erofs_layers};
use cloudhv::net::{cidr_prefix, kernel_ip_param, prefix_to_netmask};
use cloudhv::paths::{file_name_of, join, may_escape};

#[test]
fn test_detect_hypervisor() {
    let backend = detect_hypervisor(
        std::path::Path::new("/dev/kvm").exists(),
        std::path::Path::new("/dev/mshv").exists(),
    );
    assert!(
        backend == HypervisorBackend::Kvm
            || backend == HypervisorBackend::Mshv
            || backend == HypervisorBackend::Unknown
    );
    assert_eq!(detect_hypervisor(true, true), HypervisorBackend::Kvm);
    assert_eq!(detect_hypervisor(false, true), HypervisorBackend::Mshv);
    assert_eq!(detect_hypervisor(false, false), HypervisorBackend::Unknown);
}

#[test]
fn test_hypervisor_display() {
    assert_eq!(HypervisorBackend::Kvm.display(), "KVM");
    assert_eq!(HypervisorBackend::Mshv.display(), "MSHV");
    assert_eq!(HypervisorBackend::Unknown.display(), "unknown");
}

#[test]
fn locked_kvm_counts_as_supported() {
    let s = check_virtualization_support(HypervisorBackend::Kvm, Some(0o600));
    assert!(s.supported && !s.kvm_locked);
    let s = check_virtualization_support(HypervisorBackend::Kvm, Some(0o111));
    assert!(s.supported && s.kvm_locked);
    assert!(!check_virtualization_support(HypervisorBackend::Kvm, None).supported);
    assert!(check_virtualization_support(HypervisorBackend::Mshv, None).supported);
    assert!(!check_virtualization_support(HypervisorBackend::Unknown, None).supported);
}

#[test]
fn test_sanitize_digest() {
    assert_eq!(sanitize_digest("sha256:abc123def"), "sha256_abc123def");
    assert_eq!(sanitize_digest("abc123"), "abc123");
}

#[test]
fn test_layer_cache_operations() {
    let dir = tempfile::tempdir().unwrap();
    let mut cache = ImageLayerCache::new(dir.path().to_str().unwrap().to_string());

    assert_eq!(cache.cached_count(), 0);
    assert!(!cache.is_cached("sha256:abc"));

    let path = cache.ensure_layer("sha256:abc", true).unwrap();
    assert_eq!(path, format!("{}/sha256_abc", dir.path().to_str().unwrap()));
    assert!(cache.is_cached("sha256:abc"));
    assert_eq!(cache.cached_count(), 1);

    let path2 = cache.ensure_layer("sha256:abc", true).unwrap();
    assert_eq!(path, path2);

    assert_eq!(cache.release_layer("sha256:abc"), None);
    assert!(cache.is_cached("sha256:abc"));

    assert_eq!(cache.release_layer("sha256:abc"), Some(path));
    assert!(!cache.is_cached("sha256:abc"));
    assert_eq!(cache.cached_count(), 0);
}

#[test]
fn test_cache_clear() {
    let dir = tempfile::tempdir().unwrap();
    let mut cache = ImageLayerCache::new(dir.path().to_str().unwrap().to_string());

    cache.ensure_layer("sha256:aaa", true).unwrap();
    cache.ensure_layer("sha256:bbb", true).unwrap();
    assert_eq!(cache.cached_count(), 2);

    let removed = cache.clear();
    assert_eq!(removed.len(), 2);
    assert_eq!(cache.cached_count(), 0);
}

#[test]
fn layer_without_directory_is_not_cached() {
    let mut cache = ImageLayerCache::default_cache();
    assert_eq!(
        cache.ensure_layer("sha256:abc", false),
        Err("/run/cloudhv/layers/sha256_abc".to_string())
    );
    assert!(!cache.is_cached("sha256:abc"));
    assert_eq!(cache.layer_path("sha256:abc"), None);
    assert_eq!(cache.release_layer("sha256:abc"), None);
}

#[test]
fn a_layer_keeps_its_path_until_its_last_release() {
    let mut cache = ImageLayerCache::new("/l".to_string());
    let path = cache.ensure_layer("sha256:a", true).unwrap();
    assert_eq!(cache.layer_path("sha256:a"), Some(path.as_str()));
    cache.ensure_layer("sha256:b", true).unwrap();
    assert_eq!(cache.ensure_layer("sha256:a", false), Ok(path.clone()));
    assert_eq!(cache.release_layer("sha256:b"), Some("/l/sha256_b".to_string()));
    assert_eq!(cache.release_layer("sha256:a"), None);
    assert_eq!(cache.layer_path("sha256:a"), Some(path.as_str()));
    assert_eq!(cache.release_layer("sha256:a"), Some(path));
    assert_eq!(cache.layer_path("sha256:a"), None);
    cache.ensure_layer("a:b", true).unwrap();
    cache.ensure_layer("a_b", true).unwrap();
    assert_eq!(cache.clear(), vec!["/l/a_b", "/l/a_b"]);
}

#[test]
fn layers_do_not_touch_each_other() {
    let mut cache = ImageLayerCache::new("/l".to_string());
    cache.ensure_layer("a", true).unwrap();
    cache.ensure_layer("b", true).unwrap();
    cache.ensure_layer("b", true).unwrap();
    assert_eq!(cache.release_layer("a"), Some("/l/a".to_string()));
    assert_eq!(cache.refcount("b"), 2);
    assert_eq!(cache.layer_path("b"), Some("/l/b"));
}

#[test]
fn prefix_to_netmask_common_values() {
    assert_eq!(prefix_to_netmask(24), "255.255.255.0");
    assert_eq!(prefix_to_netmask(16), "255.255.0.0");
    assert_eq!(prefix_to_netmask(32), "255.255.255.255");
    assert_eq!(prefix_to_netmask(0), "0.0.0.0");
    assert_eq!(prefix_to_netmask(19), "255.255.224.0");
}

#[test]
fn kernel_ip_parameter() {
    assert_eq!(
        kernel_ip_param("10.244.0.7/16", "10.244.0.1"),
        " ip=10.244.0.7::10.244.0.1:255.255.0.0::eth0:off"
    );
    assert_eq!(cidr_prefix("10.0.0.1"), 24);
    assert_eq!(cidr_prefix("10.0.0.1/x"), 24);
    assert_eq!(cidr_prefix("10.0.0.1/8"), 8);
}

#[test]
fn to_systemd_cgroup_path_converts_correctly() {
    assert_eq!(
        to_systemd_cgroup_path("kubepods/burstable/pod-abc/ctr-123"),
        "kubepods.slice/kubepods-burstable.slice/kubepods-burstable-pod_abc.slice/cri-containerd-ctr_123.scope"
    );
    assert_eq!(
        to_systemd_cgroup_path("kubepods/besteffort/pod-xyz/ctr-456"),
        "kubepods.slice/kubepods-besteffort.slice/kubepods-besteffort-pod_xyz.slice/cri-containerd-ctr_456.scope"
    );
}

const NOWHERE: CgroupPresence =
    CgroupPresence { unified: false, systemd: false, memory: false, cpu: false, pids: false };

#[test]
fn place_in_pod_cgroup_v2_unified() {
    let files = cgroup_files("kubepods/burstable/pod-abc", "/sys/fs/cgroup");
    let present = CgroupPresence { unified: true, memory: true, ..NOWHERE };
    let placed = place_in_pod_cgroup(12345, &files, present).expect("should place in v2 cgroup");
    assert_eq!(placed.files, vec!["/sys/fs/cgroup/kubepods/burstable/pod-abc/cgroup.procs"]);
    assert_eq!(placed.content, "12345");
}

#[test]
fn place_in_pod_cgroup_v1_fallback() {
    let files = cgroup_files("kubepods/burstable/pod-abc", "/cg");
    let present = CgroupPresence { memory: true, cpu: true, ..NOWHERE };
    let placed = place_in_pod_cgroup(99999, &files, present).expect("should place in v1 cgroups");
    assert_eq!(
        placed.files,
        vec![
            "/cg/memory/kubepods/burstable/pod-abc/cgroup.procs",
            "/cg/cpu,cpuacct/kubepods/burstable/pod-abc/cgroup.procs",
        ]
    );
    assert_eq!(placed.content, "99999");
}

#[test]
fn place_in_pod_cgroup_no_path_fails() {
    let files = cgroup_files("nonexistent/path", "/cg");
    assert!(place_in_pod_cgroup(1, &files, NOWHERE).is_none());
}

#[test]
fn systemd_cgroup_before_controllers() {
    let files = cgroup_files("/kubepods/pod1/c1", "/cg");
    assert_eq!(files.pids, "/cg/pids/kubepods/pod1/c1/cgroup.procs");
    let present = CgroupPresence { systemd: true, pids: true, ..NOWHERE };
    assert_eq!(
        place_in_pod_cgroup(0, &files, present).unwrap().files,
        vec!["/cg/kubepods.slice/kubepods-pod1.slice/cri-containerd-c1.scope/cgroup.procs"]
    );
    assert_eq!(strip_slashes("//a/b"), "a/b");
}

#[test]
fn erofs_cache_key_extracts_lowerdir() {
    let mountinfo = "389 34 0:50 / /run/containerd/task/k8s.io/abc/rootfs rw,relatime shared:335 - overlay overlay rw,lowerdir=/snap/917/fs:/snap/916/fs:/snap/915/fs,upperdir=/snap/930/fs,workdir=/snap/930/work";
    let key = erofs_cache_key_from_mountinfo("/run/containerd/task/k8s.io/abc/rootfs", mountinfo);
    assert!(key.is_some());
    let key2 = erofs_cache_key_from_mountinfo("/run/containerd/task/k8s.io/abc/rootfs", mountinfo);
    assert_eq!(key, key2);
}

#[test]
fn erofs_cache_key_different_lowerdirs_differ() {
    let mi1 = "1 0 0:1 / /rootfs1 rw - overlay overlay rw,lowerdir=/a:/b";
    let mi2 = "1 0 0:1 / /rootfs1 rw - overlay overlay rw,lowerdir=/a:/c";
    let k1 = erofs_cache_key_from_mountinfo("/rootfs1", mi1);
    let k2 = erofs_cache_key_from_mountinfo("/rootfs1", mi2);
    assert_ne!(k1, k2);
}

#[test]
fn erofs_cache_key_none_for_non_overlay() {
    let mountinfo = "1 0 8:1 / /rootfs rw - ext4 /dev/sda1 rw";
    let key = erofs_cache_key_from_mountinfo("/rootfs", mountinfo);
    assert!(key.is_none());
}

#[test]
fn erofs_layers_of_a_rootfs() {
    let mountinfo = "1 0 0:1 / /rootfs rw - overlay overlay rw,lowerdir=/s/2/fs:/s/1/fs\n\
                     2 0 7:0 / /s/1/fs ro - erofs /blobs/1/layer.erofs ro\n\
                     3 0 7:1 / /s/2/fs ro - erofs /blobs/2/layer.erofs ro\n\
                     4 0 8:1 / / rw - ext4 /dev/sda1 rw\n";
    let layers = find_erofs_layers("/rootfs", mountinfo);
    assert_eq!(layers, vec!["/blobs/2/layer.erofs", "/blobs/1/layer.erofs"]);
    assert_eq!(existing(&layers, &vec![false, true]), vec!["/blobs/1/layer.erofs"]);
    assert!(find_erofs_layers("/elsewhere", mountinfo).is_empty());
}

#[test]
fn paths_are_joined_like_unix_paths() {
    assert_eq!(join("/a", "b"), "/a/b");
    assert_eq!(join("/a/", "b"), "/a/b");
    assert_eq!(join("/a", "/b"), "/b");
    assert_eq!(join("", "b"), "b");
    assert_eq!(file_name_of("/a/b/."), "b");
    assert_eq!(file_name_of("/a/.."), "");
    assert!(may_escape("../x"));
    assert!(may_escape("a/.."));
    assert!(may_escape("/etc/passwd"));
    assert!(may_escape(".."));
    assert!(!may_escape("..data/key"));
    assert!(!may_escape("a/b"));
}

#[test]
fn error_texts() {
    let s = |t: &str| t.to_string();
    assert_eq!(CloudHvError::VmError(s("x")).message(), "VM lifecycle error: x");
    assert_eq!(CloudHvError::ApiError(s("x")).message(), "Cloud Hypervisor API error: x");
    assert_eq!(CloudHvError::AgentError(s("x")).message(), "Guest agent communication error: x");
    assert_eq!(CloudHvError::ContainerError(s("x")).message(), "Container error: x");
    assert_eq!(CloudHvError::ConfigError(s("x")).message(), "Configuration error: x");
    assert_eq!(CloudHvError::Timeout(s("x")).message(), "Timeout waiting for x");
    assert_eq!(CloudHvError::VsockError(s("x")).message(), "vsock error: x");
    assert_eq!(
        CloudHvError::RuncError { exit_code: -2, stderr: s("boom") }.message(),
        "runc error: exit_code=-2, stderr=boom"
    );
    assert_eq!(CloudHvError::MountError(s("x")).message(), "mount error: x");
    assert_eq!(CloudHvError::Io(s("x")).message(), "x");
    assert_eq!(CloudHvError::Json(s("x")).message(), "x");
    assert_eq!(CloudHvError::Other(s("x")).message(), "x");
}
