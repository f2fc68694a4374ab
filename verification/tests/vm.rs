use cloudhv::json;
use cloudhv::json::Json;
use cloudhv::snapshot::{
    instance_config, state_file, GoldenStep, RestoreAction, RestoreError, RestoreEvent,
    SnapshotManager,
};
use cloudhv::types::{
    default_kernel_args_for, GuestArch, RuntimeConfig, VmConfig, VmConsoleConfig, VmCpus, VmDisk,
    VmMemory, VmNet, VmPayload, VmVsock,
};
use cloudhv::vm::{
    check_memory, pause_request, resize_request, restore_request, snapshot_request, CidAllocator,
    SocketWait, VmManager,
};

fn config() -> RuntimeConfig {
    RuntimeConfig {
        cloud_hypervisor_binary: "/usr/local/bin/cloud-hypervisor".to_string(),
        virtiofsd_binary: "/usr/libexec/virtiofsd".to_string(),
        kernel_path: "/opt/cloudhv/vmlinux".to_string(),
        rootfs_path: "/opt/cloudhv/rootfs.ext4".to_string(),
        default_vcpus: 1,
        default_memory_mb: 128,
        vsock_port: 10789,
        agent_startup_timeout_secs: 10,
        kernel_args: default_kernel_args_for(GuestArch::X86_64),
        debug: false,
        pool_size: 0,
        max_containers_per_vm: 5,
        hotplug_memory_mb: 0,
        hotplug_method: "acpi".to_string(),
        tpm_enabled: false,
    }
}

fn manager(id: &str, config: RuntimeConfig) -> VmManager {
    VmManager::new(id.to_string(), config, &mut CidAllocator::new())
}

fn at<'a>(j: &'a Json, path: &[&str]) -> &'a Json {
    j.pointer(path).unwrap()
}

#[test]
fn test_vm_state_directory_setup() {
    let vm_id = "test-state-1";
    let vm = manager(vm_id, config());
    assert!(vm.cid() >= 3, "CID should be >= 3, got {}", vm.cid());
    assert!(vm.state_dir().contains(vm_id), "state dir should contain vm_id");
    assert_eq!(vm.state_dir(), "/run/cloudhv/test-state-1");
    assert_eq!(vm.shared_dir(), "/run/cloudhv/test-state-1/shared");
    assert_eq!(vm.api_socket_path(), "/run/cloudhv/test-state-1/api.sock");
    assert_eq!(vm.vsock_socket(), "/run/cloudhv/test-state-1/vsock.sock");
}

#[test]
fn test_unique_cid_allocation() {
    let mut cids = CidAllocator::new();
    let vm1 = VmManager::new("cid-test-1".to_string(), config(), &mut cids);
    let vm2 = VmManager::new("cid-test-2".to_string(), config(), &mut cids);
    let vm3 = VmManager::new("cid-test-3".to_string(), config(), &mut cids);

    assert_ne!(vm1.cid(), vm2.cid(), "VMs should get unique CIDs");
    assert_ne!(vm2.cid(), vm3.cid(), "VMs should get unique CIDs");
    assert_ne!(vm1.cid(), vm3.cid(), "VMs should get unique CIDs");
    assert!(vm1.cid() >= 3, "CIDs should start at 3+");
    assert!(vm2.cid() >= 3, "CIDs should start at 3+");
    assert!(vm3.cid() >= 3, "CIDs should start at 3+");
}

#[test]
fn test_vm_config_json_generation() {
    let config = VmConfig {
        payload: VmPayload {
            kernel: "/opt/vmlinux".to_string(),
            cmdline: Some("console=hvc0 root=/dev/vda rw".to_string()),
            initramfs: None,
        },
        cpus: VmCpus { boot_vcpus: 1, max_vcpus: 2 },
        memory: VmMemory {
            size: 128 * 1024 * 1024,
            shared: true,
            hotplug_size: None,
            hotplug_method: None,
        },
        disks: vec![VmDisk { path: "/opt/rootfs.ext4".to_string(), readonly: false, id: None }],
        net: vec![],
        fs: vec![],
        vsock: Some(VmVsock { cid: 3, socket: "/run/vsock.sock".to_string() }),
        serial: Some(VmConsoleConfig::off()),
        console: Some(VmConsoleConfig::off()),
        balloon: None,
        tpm: None,
    };

    let text = json::to_text_pretty(config.to_json());
    let parsed: serde_json::Value = serde_json::from_str(&text).unwrap();
    assert_eq!(parsed["payload"]["kernel"].as_str().unwrap(), "/opt/vmlinux");
    assert_eq!(parsed["cpus"]["boot_vcpus"].as_u64().unwrap(), 1);
    assert_eq!(parsed["memory"]["size"].as_u64().unwrap(), 128 * 1024 * 1024);
    assert!(parsed["memory"]["shared"].as_bool().unwrap());
    assert_eq!(parsed["vsock"]["cid"].as_u64().unwrap(), 3);
    assert_eq!(parsed["serial"]["mode"].as_str().unwrap(), "Off");
    assert!(parsed["payload"].get("initramfs").is_none());
    assert!(parsed.get("balloon").is_none());
}

#[test]
fn test_vm_config_with_hotplug() {
    let config = VmConfig {
        payload: VmPayload {
            kernel: "/opt/vmlinux".to_string(),
            cmdline: Some("console=hvc0".to_string()),
            initramfs: None,
        },
        cpus: VmCpus { boot_vcpus: 1, max_vcpus: 4 },
        memory: VmMemory {
            size: 128 * 1024 * 1024,
            shared: true,
            hotplug_size: Some(512 * 1024 * 1024),
            hotplug_method: Some("VirtioMem".to_string()),
        },
        disks: vec![],
        net: vec![],
        fs: vec![],
        vsock: None,
        serial: None,
        console: None,
        balloon: None,
        tpm: None,
    };

    let text = json::to_text_pretty(config.to_json());
    let parsed: serde_json::Value = serde_json::from_str(&text).unwrap();
    assert_eq!(parsed["cpus"]["max_vcpus"].as_u64().unwrap(), 4);
    assert_eq!(parsed["memory"]["hotplug_size"].as_u64().unwrap(), 512 * 1024 * 1024);
    assert_eq!(parsed["memory"]["hotplug_method"].as_str().unwrap(), "VirtioMem");
}

#[test]
fn default_kernel_command_lines() {
    assert_eq!(
        default_kernel_args_for(GuestArch::X86_64),
        "console=hvc0 root=/dev/vda rw quiet init=/init net.ifnames=0"
    );
    assert!(default_kernel_args_for(GuestArch::Aarch64).starts_with("console=ttyAMA0 "));
}

#[test]
fn boot_plan_of_a_vm_with_everything() {
    let mut c = config();
    c.hotplug_memory_mb = 512;
    c.hotplug_method = "virtio-mem".to_string();
    c.tpm_enabled = true;
    assert!(check_memory(&c));
    let vm = manager("pod", c);
    let extra = vec![VmDisk {
        path: "/run/cloudhv/pod/ctr-1.erofs".to_string(),
        readonly: true,
        id: Some("ctr-1".to_string()),
    }];
    let plan = vm.create_and_boot_vm(Some("tap_pod"), Some("02:00:00:00:00:01"), extra, Some(8));
    assert_eq!(plan.create.path, "/api/v1/vm.create");
    assert_eq!(plan.boot.path, "/api/v1/vm.boot");
    assert_eq!(plan.boot.body, None);
    let body = json::parse(plan.create.body.unwrap().as_str()).unwrap();
    assert_eq!(at(&body, &["cpus", "max_vcpus"]).as_u64(), Some(8));
    assert_eq!(at(&body, &["memory", "hotplug_size"]).as_u64(), Some(512 << 20));
    assert_eq!(at(&body, &["memory", "hotplug_method"]).as_str(), Some("VirtioMem"));
    let disks = at(&body, &["disks"]).as_array().unwrap();
    assert_eq!(disks.len(), 2);
    assert_eq!(disks[0].get("path").unwrap().as_str(), Some("/opt/cloudhv/rootfs.ext4"));
    assert_eq!(disks[1].get("id").unwrap().as_str(), Some("ctr-1"));
    let net = at(&body, &["net"]).as_array().unwrap();
    assert_eq!(net[0].get("tap").unwrap().as_str(), Some("tap_pod"));
    assert_eq!(at(&body, &["tpm", "socket"]).as_str(), Some("/run/cloudhv/pod/tpm.sock"));
    assert!(body.get("balloon").is_some());
    let monitor = vm.monitor_config().unwrap();
    assert_eq!(monitor.boot_memory_bytes, 128 << 20);
    assert_eq!(monitor.max_memory_bytes, 640 << 20);
}

#[test]
fn vm_is_described_field_by_field() {
    let mut c = config();
    c.kernel_path = "/k \"q\"".to_string();
    c.kernel_args = "quiet".to_string();
    let vm = manager("pod", c);
    let config = vm.vm_config(Some("tap0"), None, vec![], Some(2));
    let text = config.to_text();
    assert_eq!(
        text,
        [
            r#"{"payload":{"kernel":"/k \"q\"","cmdline":"quiet"},"#,
            r#""cpus":{"boot_vcpus":1,"max_vcpus":2},"#,
            r#""memory":{"size":134217728,"shared":true},"#,
            r#""disks":[{"path":"/opt/cloudhv/rootfs.ext4","readonly":false}],"#,
            r#""net":[{"tap":"tap0"}],"#,
            r#""fs":[{"tag":"containerfs","socket":"/run/cloudhv/pod/virtiofsd.sock","#,
            r#""num_queues":1,"queue_size":128}],"#,
            r#""vsock":{"cid":3,"socket":"/run/cloudhv/pod/vsock.sock"},"#,
            r#""serial":{"mode":"File","file":"/run/cloudhv/pod/console.log"},"#,
            r#""console":{"mode":"Off"}}"#,
        ]
        .concat()
    );
    // It is the document, member for member.
    let read = json::parse(&text).unwrap();
    assert_eq!(json::to_text(read), json::to_text(config.to_json()));
    assert_eq!(vm.create_and_boot_vm(Some("tap0"), None, vec![], Some(2)).create.body, Some(text));
}

#[test]
fn vm_without_hotplug_has_neither_balloon_nor_monitor() {
    let vm = manager("pod", config());
    let c = vm.vm_config(None, None, vec![], None);
    assert!(c.balloon.is_none());
    assert!(c.net.is_empty());
    assert_eq!(c.cpus.max_vcpus, 1);
    assert!(vm.monitor_config().is_none());
    assert!(vm.start_swtpm().is_none());
}

#[test]
fn memory_that_does_not_fit_is_seen() {
    let mut c = config();
    c.default_memory_mb = u64::MAX;
    assert!(!check_memory(&c));
}

#[test]
fn hypervisor_runs_in_the_pods_namespace() {
    let vm = manager("pod", config());
    let inside = vm.spawn_vmm_in_netns(Some("/run/netns/a"));
    assert_eq!(inside.program, "nsenter");
    assert_eq!(
        inside.args,
        vec![
            "--net=/run/netns/a",
            "--",
            "/usr/local/bin/cloud-hypervisor",
            "--api-socket",
            "/run/cloudhv/pod/api.sock"
        ]
    );
    let outside = vm.spawn_vmm_in_netns(None);
    assert_eq!(outside.program, "/usr/local/bin/cloud-hypervisor");
    assert_eq!(outside.args.len(), 2);
}

#[test]
fn requests_to_the_hypervisor() {
    let vm = manager("pod", config());
    let disk = vm.add_disk("/d.img", "d1", false);
    assert_eq!(disk.path, "/api/v1/vm.add-disk");
    assert_eq!(
        disk.body.as_ref().unwrap(),
        "{\"path\":\"/d.img\",\"readonly\":false,\"id\":\"d1\"}"
    );
    let text = disk.to_text();
    assert!(text.starts_with("PUT /api/v1/vm.add-disk HTTP/1.1\r\n"));
    assert!(text.ends_with("\r\n\r\n{\"path\":\"/d.img\",\"readonly\":false,\"id\":\"d1\"}"));
    assert!(resize_request(None, None).is_none());
    let resize = vm.resize(Some(2), Some(268435456)).unwrap();
    assert_eq!(resize.body.unwrap(), "{\"desired_ram\":268435456,\"desired_vcpus\":2}");
    assert_eq!(vm.shutdown(true).unwrap().path, "/api/v1/vm.shutdown");
    assert!(vm.shutdown(false).is_none());
    assert_eq!(pause_request().path, "/api/v1/vm.pause");
    assert_eq!(
        snapshot_request("/s").body.unwrap(),
        "{\"destination_url\":\"file:///s\"}"
    );
    assert_eq!(restore_request("/s").body.unwrap(), "{\"source_url\":\"file:///s\"}");
}

#[test]
fn waiting_for_sockets_and_agent() {
    let vm = manager("pod", config());
    assert_eq!(vm.wait_vmm_ready(0, false), SocketWait::Pause(5));
    assert_eq!(vm.wait_vmm_ready(499, true), SocketWait::Ready);
    assert_eq!(vm.wait_vmm_ready(500, true), SocketWait::GiveUp);
    assert_eq!(vm.wait_tpm_ready(19, false), SocketWait::Pause(100));
    assert_eq!(vm.wait_tpm_ready(0, true), SocketWait::Ready);
    assert_eq!(vm.wait_tpm_ready(20, true), SocketWait::GiveUp);
    assert_eq!(vm.wait_virtiofsd_ready(199, false), SocketWait::Pause(5));
    assert_eq!(vm.wait_virtiofsd_ready(200, false), SocketWait::GiveUp);
    assert_eq!(vm.wait_for_agent(9999, false), SocketWait::Pause(10));
    assert_eq!(vm.wait_for_agent(9999, true), SocketWait::Ready);
    assert_eq!(vm.wait_for_agent(10000, true), SocketWait::GiveUp);
}

#[test]
fn golden_snapshot_takes_every_step() {
    let mut m = SnapshotManager::new(config(), false);
    assert!(!m.is_ready());
    let mut step = m.ensure_golden_snapshot();
    let mut steps = 0;
    while step != GoldenStep::Done {
        step = m.golden_step(step, true);
        steps += 1;
    }
    assert_eq!(steps, 10);
    assert!(m.is_ready());
    assert_eq!(m.ensure_golden_snapshot(), GoldenStep::Done);
    m.cleanup();
    assert!(!m.is_ready());
}

#[test]
fn golden_snapshot_fails_with_one_step() {
    let mut m = SnapshotManager::new(config(), false);
    let step = m.golden_step(GoldenStep::RemoveDir, false);
    assert_eq!(step, GoldenStep::CreateDir);
    assert_eq!(m.golden_step(GoldenStep::CheckHealth, false), GoldenStep::Failed);
    assert!(!m.is_ready());
}

#[test]
fn only_the_vsock_socket_of_a_snapshot_changes() {
    let golden = r#"{"vsock":{"cid":3,"socket":"/old.sock"},"cpus":{"boot_vcpus":1},"x":1.5}"#;
    let text = instance_config(golden, "/new.sock").unwrap();
    let v: serde_json::Value = serde_json::from_str(&text).unwrap();
    assert_eq!(v["vsock"]["socket"].as_str(), Some("/new.sock"));
    assert_eq!(v["vsock"]["cid"].as_u64(), Some(3));
    assert_eq!(v["cpus"]["boot_vcpus"].as_u64(), Some(1));
    assert_eq!(v["x"].as_f64(), Some(1.5));
    assert!(instance_config("{", "/new.sock").is_none());
}

#[test]
fn restore_runs_to_its_end() {
    let m = SnapshotManager::new(config(), true);
    assert!(state_file().ends_with("golden-snapshot/state.json"));
    let mut run = m.restore_vm("r1");
    assert_eq!(run.vsock_socket(), "/run/cloudhv/r1/vsock.sock");
    let mut written = String::new();
    let mut looks = 0;
    loop {
        let event = match run.action() {
            RestoreAction::ReadFile(_) => {
                RestoreEvent::Read(Some("{\"vsock\":{\"socket\":\"/old\"}}".to_string()))
            }
            RestoreAction::WriteFile(_, text) => {
                written = text;
                RestoreEvent::Outcome(true)
            }
            RestoreAction::CheckSocket(p) => {
                assert_eq!(p, "/run/cloudhv/r1/api.sock");
                looks += 1;
                RestoreEvent::Outcome(looks == 3)
            }
            RestoreAction::Sleep(ms) => {
                assert_eq!(ms, 5);
                RestoreEvent::Slept
            }
            RestoreAction::Done => break,
            RestoreAction::Fail(e, _) => panic!("failed: {:?}", e),
            _ => RestoreEvent::Outcome(true),
        };
        run.step(event);
    }
    assert!(written.contains("/run/cloudhv/r1/vsock.sock"));
    assert_eq!(looks, 3);
}

fn restored_with_net(accepted: bool) -> (Vec<String>, Option<(RestoreError, bool)>) {
    let m = SnapshotManager::new(config(), true);
    let net = VmNet { tap: "tap_r1".to_string(), mac: Some("02:00:00:00:00:01".to_string()) };
    let mut run = m.restore_vm_with_net("r1", net);
    let mut sent = Vec::new();
    loop {
        let event = match run.action() {
            RestoreAction::ReadFile(_) => RestoreEvent::Read(Some("{}".to_string())),
            RestoreAction::Request(r, _) => {
                let ok = accepted || r.path != "/api/v1/vm.add-net";
                sent.push(r.path);
                sent.extend(r.body);
                RestoreEvent::Outcome(ok)
            }
            RestoreAction::Fail(e, kill) => return (sent, Some((e, kill))),
            RestoreAction::Done => return (sent, None),
            _ => RestoreEvent::Outcome(true),
        };
        run.step(event);
    }
}

#[test]
fn restored_vm_gets_its_network() {
    let (sent, failed) = restored_with_net(true);
    assert_eq!(failed, None);
    assert_eq!(
        sent[2..],
        [
            "/api/v1/vm.resume",
            "/api/v1/vm.add-net",
            "{\"tap\":\"tap_r1\",\"mac\":\"02:00:00:00:00:01\"}",
        ]
    );
    assert_eq!(restored_with_net(false).1, Some((RestoreError::AddNet, true)));
}

#[test]
fn failed_restore_kills_what_it_started() {
    let m = SnapshotManager::new(config(), true);
    let mut run = m.restore_vm("r1");
    let failed = loop {
        let event = match run.action() {
            RestoreAction::ReadFile(_) => RestoreEvent::Read(Some("{}".to_string())),
            RestoreAction::Request(_, _) => RestoreEvent::Outcome(false),
            RestoreAction::Fail(e, kill) => break (e, kill),
            RestoreAction::Done => panic!("the hypervisor refused"),
            _ => RestoreEvent::Outcome(true),
        };
        run.step(event);
    };
    assert_eq!(failed, (RestoreError::Restore, true));
    let missing = SnapshotManager::new(config(), false).restore_vm("r1");
    assert!(matches!(missing.action(), RestoreAction::Fail(RestoreError::NoSnapshot, false)));
}

#[test]
fn unreadable_or_invalid_snapshot_is_not_restored() {
    let m = SnapshotManager::new(config(), true);
    let mut run = m.restore_vm("r1");
    run.step(RestoreEvent::Outcome(true));
    run.step(RestoreEvent::Read(Some("not json".to_string())));
    assert!(matches!(run.action(), RestoreAction::Fail(RestoreError::ParseConfig, false)));
    let mut run = m.restore_vm("r2");
    run.step(RestoreEvent::Outcome(true));
    run.step(RestoreEvent::Read(None));
    assert!(matches!(run.action(), RestoreAction::Fail(RestoreError::ReadConfig, false)));
}
