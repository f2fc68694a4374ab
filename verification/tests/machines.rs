use cloudhv::container::InlineFileInfo;
use cloudhv::erofs::{ImageAction, ImageBuild, ImageError};
use cloudhv::memory::{MemoryMonitor, MemoryMonitorConfig, MonitorAction, MonitorEvent};
use cloudhv::pod::{
    delete_plan, disk_id, BootRole, BootState, BootWait, ContainerCount,
};
use cloudhv::pool::{
    create_warm_vm, new_pool_vm_id, warm_start, VmPool, WarmError, WarmEvent, WarmPhase,
};
use cloudhv::request::{bundle_for, volume_infos, VolumeType};
use cloudhv::sandbox::{SandboxAction, SandboxError, SandboxStart};
use cloudhv::start::{ContainerStart, StartAction, StartError, StartEvent};
use cloudhv::tap::{
    after_failed_setup, cleanup_tap_in_netns, tap_name, TapAction, TapError, TapEvent, TapInfo,
    TapSetup,
};
use cloudhv::text;
use cloudhv::types::RuntimeConfig;
use cloudhv::vm::CidAllocator;

fn config() -> RuntimeConfig {
    RuntimeConfig {
        cloud_hypervisor_binary: "ch".to_string(),
        virtiofsd_binary: "vfs".to_string(),
        kernel_path: "/k".to_string(),
        rootfs_path: "/r".to_string(),
        default_vcpus: 1,
        default_memory_mb: 512,
        vsock_port: 10789,
        agent_startup_timeout_secs: 10,
        kernel_args: "console=hvc0".to_string(),
        debug: false,
        pool_size: 2,
        max_containers_per_vm: 1,
        hotplug_memory_mb: 0,
        hotplug_method: "acpi".to_string(),
        tpm_enabled: false,
    }
}

#[test]
fn only_the_first_container_boots() {
    let mut state = BootState::NotBooted;
    assert_eq!(state.claim(), Ok(BootRole::First));
    assert_eq!(state.claim(), Ok(BootRole::Subsequent));
    assert!(matches!(state.wait(), BootWait::Wait));
    state.finish(None);
    assert!(matches!(state.wait(), BootWait::Go));
    assert_eq!(state.claim(), Ok(BootRole::Subsequent));
}

#[test]
fn failed_boot_is_told_to_all() {
    let mut state = BootState::NotBooted;
    assert_eq!(state.claim(), Ok(BootRole::First));
    state.finish(Some("no kernel".to_string()));
    assert_eq!(state.claim(), Err("no kernel".to_string()));
    match state.wait() {
        BootWait::Fail(e) => assert_eq!(e, "no kernel"),
        _ => panic!("the boot failed"),
    }
}

#[test]
fn vm_goes_with_its_last_container() {
    let mut count = ContainerCount::new();
    assert!(count.try_add_container(5));
    let plan = delete_plan(
        "0123456789abcdef",
        false,
        "/run/cloudhv/pod",
        &mut count,
        Some("tap_pod"),
        Some("/run/netns/a"),
    );
    assert!(!plan.last);
    assert_eq!(
        plan.images,
        vec!["/run/cloudhv/pod/ctr-0123456789ab.erofs", "/run/cloudhv/pod/ctr-0123456789ab.img"]
    );
    assert!(plan.network.is_empty());
    let plan = delete_plan(
        "pod",
        true,
        "/run/cloudhv/pod",
        &mut count,
        Some("tap_pod"),
        Some("/run/netns/a"),
    );
    assert!(plan.last);
    assert!(plan.images.is_empty());
    assert_eq!(plan.network, cleanup_tap_in_netns("/run/netns/a", "tap_pod"));
    assert_eq!(plan.network[2][..2], ["--net=/run/netns/a", "--"]);
    assert_eq!(disk_id("short"), "ctr-short");
}

#[test]
fn vm_takes_no_more_containers_than_configured() {
    let mut count = ContainerCount::new();
    assert!(count.try_add_container(2));
    assert!(count.try_add_container(2));
    assert!(!count.try_add_container(2));
    assert!(!count.remove_container());
    assert!(count.try_add_container(2));
    assert!(!count.try_add_container(0));
    assert!(!count.remove_container());
    assert!(!count.remove_container());
    assert!(count.remove_container());
}

fn build(image: &mut ImageBuild, cached: bool, links: bool) -> Vec<String> {
    let mut seen = Vec::new();
    loop {
        let ok = match image.action() {
            ImageAction::MakeDir(d) => {
                seen.push(format!("mkdir {}", d));
                false
            }
            ImageAction::Lock(f) => {
                seen.push(format!("lock {}", f));
                true
            }
            ImageAction::Exists(_) => cached,
            ImageAction::Link(a, b) => {
                seen.push(format!("link {} {}", a, b));
                links
            }
            ImageAction::Copy(a, b) => {
                seen.push(format!("copy {} {}", a, b));
                true
            }
            ImageAction::Build(args) => {
                seen.push(args.join(" "));
                true
            }
            ImageAction::Remove(_) => false,
            ImageAction::Rename(a, b) => {
                seen.push(format!("rename {} {}", a, b));
                true
            }
            ImageAction::Done => return seen,
            ImageAction::Fail(e) => panic!("failed: {:?}", e),
        };
        image.step(ok);
    }
}

#[test]
fn image_is_built_once_and_cached() {
    let key = || Some("abc".to_string());
    let mut first = ImageBuild::new("/s/ctr.erofs", "/b/rootfs", key(), 42);
    assert_eq!(
        build(&mut first, false, true),
        vec![
            "mkdir /run/cloudhv/erofs-cache",
            "lock /run/cloudhv/erofs-cache/abc.lock",
            "--quiet /s/ctr.erofs /b/rootfs",
            "link /s/ctr.erofs /run/cloudhv/erofs-cache/abc.erofs.42.tmp",
            "rename /run/cloudhv/erofs-cache/abc.erofs.42.tmp /run/cloudhv/erofs-cache/abc.erofs",
        ]
    );
    let mut second = ImageBuild::new("/s2/ctr.erofs", "/b2/rootfs", key(), 43);
    assert_eq!(
        build(&mut second, true, false),
        vec![
            "mkdir /run/cloudhv/erofs-cache",
            "lock /run/cloudhv/erofs-cache/abc.lock",
            "link /run/cloudhv/erofs-cache/abc.erofs /s2/ctr.erofs",
            "copy /run/cloudhv/erofs-cache/abc.erofs /s2/ctr.erofs",
        ]
    );
    let mut uncached = ImageBuild::new("/s/ctr.erofs", "/b/rootfs", None, 42);
    assert_eq!(build(&mut uncached, false, true), vec!["--quiet /s/ctr.erofs /b/rootfs"]);
}

#[test]
fn image_errors_name_the_step() {
    let fail = |oks: &[bool]| {
        let mut b = ImageBuild::new("/i", "/r", Some("k".to_string()), 1);
        for ok in oks {
            b.step(*ok);
        }
        match b.action() {
            ImageAction::Fail(e) => e,
            a => panic!("not failed: {:?}", a),
        }
    };
    assert_eq!(fail(&[true, false]), ImageError::Lock);
    assert_eq!(fail(&[true, true, true, false, false]), ImageError::TakeCached);
    assert_eq!(fail(&[true, true, false, false]), ImageError::Build);
    assert_eq!(fail(&[true, true, false, true, true, false, false]), ImageError::FillCache);
    assert_eq!(fail(&[true, true, false, true, true, true, false]), ImageError::FillCache);
}

const SPEC: &str = r#"{"mounts": [
    {"destination": "/etc/config", "source": "/host/cm", "type": "bind", "options": ["ro"]},
    {"destination": "/scratch", "source": "/k/empty-dir/s", "type": "bind"},
    {"destination": "/data", "source": "/dev/sdb", "type": "bind"}]}"#;

fn drive(run: &mut ContainerStart, role: BootRole) -> (Vec<String>, Result<u32, StartError>) {
    let mut seen = Vec::new();
    loop {
        let event = match run.action() {
            StartAction::ReadText(_) => StartEvent::Text(Some(SPEC.to_string())),
            StartAction::ProbeSources(s) => {
                assert_eq!(s, vec!["/host/cm", "/k/empty-dir/s", "/dev/sdb"]);
                let mut blocks = text::empty_table();
                blocks.insert("/dev/sdb".to_string(), "xfs".to_string());
                StartEvent::Blocks(blocks)
            }
            StartAction::ReadMounts => StartEvent::Text(Some(
                "1 0 0:1 / /bundle/rootfs rw - overlay overlay rw,lowerdir=/a:/b".to_string(),
            )),
            StartAction::CheckFiles(_) => panic!("there are no erofs layers"),
            StartAction::MakeImage(image, rootfs, key) => {
                assert!(key.is_some());
                seen.push(format!("image {} {}", image, rootfs));
                StartEvent::Outcome(true)
            }
            StartAction::Claim => StartEvent::Role(Ok(role)),
            StartAction::Boot(disks) => {
                seen.push(format!("boot {} {}", disks.len(), disks[0].path));
                StartEvent::Checked(None)
            }
            StartAction::Connect => {
                seen.push("connect".to_string());
                StartEvent::Checked(None)
            }
            StartAction::MarkBooted => {
                seen.push("booted".to_string());
                StartEvent::Outcome(true)
            }
            StartAction::MarkFailed(_) => StartEvent::Outcome(true),
            StartAction::PlaceInCgroup => StartEvent::Outcome(false),
            StartAction::Wait => {
                seen.push("wait".to_string());
                StartEvent::Checked(None)
            }
            StartAction::Request(r) => {
                seen.push(r.body.unwrap());
                StartEvent::Outcome(true)
            }
            StartAction::CreateFile(f, n) => {
                assert_eq!(n, 16 * 1024 * 1024);
                seen.push(format!("create {}", f));
                StartEvent::Outcome(true)
            }
            StartAction::Format(args) => {
                assert_eq!(args[..4], ["-q", "-F", "-O", "^has_journal"]);
                StartEvent::Outcome(true)
            }
            StartAction::ReadBytes(_) => StartEvent::Bytes(Some(SPEC.as_bytes().to_vec())),
            StartAction::ReadVolume(p) => {
                assert_eq!(p, "/host/cm");
                StartEvent::Files(Some(vec![InlineFileInfo {
                    path: "key".to_string(),
                    content: b"value".to_vec(),
                    mode: 0o644,
                }]))
            }
            StartAction::Run => {
                check_request(run, true);
                seen.push("run".to_string());
                StartEvent::Started(Some(7))
            }
            StartAction::Create => {
                check_request(run, false);
                seen.push("create".to_string());
                StartEvent::Outcome(true)
            }
            StartAction::Await => panic!("the reply came at once"),
            StartAction::Start(id) => {
                seen.push(format!("start {}", id));
                StartEvent::Started(Some(8))
            }
            StartAction::Done(pid) => return (seen, Ok(pid)),
            StartAction::Fail(e) => return (seen, Err(e)),
        };
        run.step(event);
    }
}

fn check_request(run: &mut ContainerStart, preattached: bool) {
    let r = run.take_request();
    assert_eq!(r.container_id, "0123456789abcdef");
    assert_eq!(r.bundle_path, "/run/containers/0123456789abcdef");
    assert_eq!(r.config_json, SPEC.as_bytes());
    assert_eq!(r.rootfs_preattached, preattached);
    assert_eq!(r.erofs_layers, 1);
    assert_eq!(r.volumes.len(), 3);
    assert_eq!(r.volumes[0].volume_type, VolumeType::Filesystem);
    assert!(r.volumes[0].source.starts_with("/run/containers/0123456789abcdef/volumes/"));
    assert!(r.volumes[0].readonly);
    assert_eq!(r.volumes[0].files[0].content, b"value");
    assert_eq!(r.volumes[1].volume_type, VolumeType::Block);
    assert_eq!(r.volumes[1].fs_type, "ext4");
    assert_eq!(r.volumes[2].fs_type, "xfs");
    let infos = volume_infos(r.volumes);
    assert!(!infos[0].is_block && infos[1].is_block && infos[2].is_block);
    assert_eq!(infos[0].inline_files[0].path, "key");
    assert_eq!(infos[2].destination, "/data");
}

#[test]
fn bundle_path_is_the_directory_and_the_name() {
    assert_eq!(bundle_for("abc"), "/run/containers/abc");
    assert_eq!(bundle_for("/x"), "/run/containers//x");
}

#[test]
fn first_container_boots_the_vm_with_its_rootfs() {
    let mut run = ContainerStart::new("0123456789abcdef", "/bundle", "/run/cloudhv/pod");
    let (seen, pid) = drive(&mut run, BootRole::First);
    assert_eq!(pid, Ok(7));
    assert!(run.boots_vm());
    assert_eq!(seen[0], "image /run/cloudhv/pod/ctr-0123456789ab.erofs /bundle/rootfs");
    assert_eq!(seen[1], "boot 1 /run/cloudhv/pod/ctr-0123456789ab.erofs");
    assert_eq!(seen[2..5], ["connect", "booted", "connect"]);
    assert!(seen[5].starts_with("create /run/cloudhv/pod/edir-"));
    assert!(seen[6].contains("\"readonly\":false"));
    assert_eq!(
        seen[7],
        "{\"id\":\"ctr-0123456789ab-vol2\",\"path\":\"/dev/sdb\",\"readonly\":false}"
    );
    assert_eq!(seen[8..], ["run"]);
}

#[test]
fn block_volumes_are_plugged_in_order() {
    let spec = r#"{"mounts": [
        {"destination": "/a", "source": "/dev/sda", "type": "bind", "options": ["ro"]},
        {"destination": "/b", "source": "/host/cm", "type": "bind"},
        {"destination": "/c", "source": "/k/empty-dir/c", "type": "bind"},
        {"destination": "/d", "source": "/dev/sdd", "type": "bind"}]}"#;
    let plugging = || {
        let mut run = ContainerStart::new("ctr", "/bundle", "/s");
        run.step(StartEvent::Text(Some(spec.to_string())));
        let mut blocks = text::empty_table();
        blocks.insert("/dev/sda".to_string(), "ext4".to_string());
        blocks.insert("/dev/sdd".to_string(), "ext4".to_string());
        run.step(StartEvent::Blocks(blocks));
        run.step(StartEvent::Text(None));
        run.step(StartEvent::Outcome(true));
        run.step(StartEvent::Role(Ok(BootRole::First)));
        run.step(StartEvent::Checked(None));
        run.step(StartEvent::Checked(None));
        run.step(StartEvent::Outcome(true));
        run.step(StartEvent::Outcome(true));
        run.step(StartEvent::Checked(None));
        run
    };
    let body = |run: &ContainerStart| match run.action() {
        StartAction::Request(r) => {
            assert_eq!(r.path, "/api/v1/vm.add-disk");
            r.body.unwrap()
        }
        _ => panic!("a disk is plugged in"),
    };
    let mut run = plugging();
    assert_eq!(body(&run), "{\"id\":\"ctr-ctr-vol0\",\"path\":\"/dev/sda\",\"readonly\":true}");
    run.step(StartEvent::Outcome(true));
    assert!(matches!(run.action(), StartAction::CreateFile(_, _)));
    run.step(StartEvent::Outcome(true));
    run.step(StartEvent::Outcome(true));
    assert!(body(&run).contains("edir-"));
    run.step(StartEvent::Outcome(true));
    assert_eq!(body(&run), "{\"id\":\"ctr-ctr-vol3\",\"path\":\"/dev/sdd\",\"readonly\":false}");
    run.step(StartEvent::Outcome(true));
    assert!(matches!(run.action(), StartAction::ReadBytes(_)));
    let mut run = plugging();
    run.step(StartEvent::Outcome(false));
    assert!(matches!(run.action(), StartAction::Fail(StartError::PlugVolume)));
}

#[test]
fn later_container_plugs_its_disk_in() {
    let mut run = ContainerStart::new("0123456789abcdef", "/bundle", "/run/cloudhv/pod");
    let (seen, pid) = drive(&mut run, BootRole::Subsequent);
    assert_eq!(pid, Ok(8));
    assert_eq!(seen[1], "wait");
    assert_eq!(
        seen[2],
        "{\"id\":\"ctr-0123456789ab\",\"path\":\"/run/cloudhv/pod/ctr-0123456789ab.erofs\",\"readonly\":true}"
    );
    assert_eq!(seen[seen.len() - 2..], ["create", "start 0123456789abcdef"]);
}

#[test]
fn layers_that_exist_become_disks() {
    let mut run = ContainerStart::new("c", "/bundle", "/s");
    run.step(StartEvent::Text(Some("{}".to_string())));
    run.step(StartEvent::Blocks(text::empty_table()));
    run.step(StartEvent::Text(Some(
        "1 0 0:1 / /bundle/rootfs rw - overlay overlay rw,lowerdir=/s/2:/s/1\n\
         2 0 7:0 / /s/1 ro - erofs /b/1.erofs ro\n3 0 7:1 / /s/2 ro - erofs /b/2.erofs ro"
            .to_string(),
    )));
    match run.action() {
        StartAction::CheckFiles(f) => assert_eq!(f, vec!["/b/2.erofs", "/b/1.erofs"]),
        _ => panic!("the layers are looked at"),
    }
    run.step(StartEvent::Present(vec![true, true]));
    run.step(StartEvent::Role(Ok(BootRole::First)));
    match run.action() {
        StartAction::Boot(d) => {
            assert_eq!(d.len(), 2);
            assert_eq!(d[0].id, Some("ctr-c-layer0".to_string()));
            assert_eq!(d[1].path, "/b/1.erofs");
            assert!(d[1].readonly);
        }
        _ => panic!("the VM is booted"),
    }
    run.step(StartEvent::Checked(Some("no kernel".to_string())));
    match run.action() {
        StartAction::MarkFailed(r) => assert_eq!(r, "no kernel"),
        _ => panic!("the failure is recorded"),
    }
    run.step(StartEvent::Outcome(true));
    assert!(matches!(run.action(), StartAction::Fail(StartError::Boot)));
    assert_eq!(run.reason(), "no kernel");
}

#[test]
fn start_errors_name_the_step() {
    let start = || {
        let mut run = ContainerStart::new("c", "/bundle", "/s");
        run.step(StartEvent::Text(Some(
            "{\"mounts\": [{\"destination\": \"/e\", \"source\": \"/empty-dir/x\", \"type\": \"bind\"}, \
             {\"destination\": \"/f\", \"source\": \"/x\", \"type\": \"bind\"}]}"
                .to_string(),
        )));
        run.step(StartEvent::Blocks(text::empty_table()));
        run.step(StartEvent::Text(None));
        run
    };
    let error = |run: &ContainerStart| match run.action() {
        StartAction::Fail(e) => e,
        _ => panic!("not failed"),
    };
    let mut bad = ContainerStart::new("c", "/bundle", "/s");
    bad.step(StartEvent::Text(Some("nope".to_string())));
    bad.step(StartEvent::Blocks(text::empty_table()));
    assert_eq!(error(&bad), StartError::InvalidSpec);
    let mut run = start();
    run.step(StartEvent::Outcome(false));
    assert_eq!(error(&run), StartError::Image);
    let mut run = start();
    run.step(StartEvent::Outcome(true));
    run.step(StartEvent::Role(Err("before".to_string())));
    assert_eq!(error(&run), StartError::BootFailedBefore);
    let claimed = |role: BootRole| {
        let mut run = start();
        run.step(StartEvent::Outcome(true));
        run.step(StartEvent::Role(Ok(role)));
        run
    };
    let mut run = claimed(BootRole::First);
    run.step(StartEvent::Checked(None));
    run.step(StartEvent::Checked(Some("silent".to_string())));
    run.step(StartEvent::Outcome(true));
    assert_eq!(error(&run), StartError::AgentAfterBoot);
    let mut run = claimed(BootRole::Subsequent);
    run.step(StartEvent::Checked(Some("late".to_string())));
    assert_eq!(error(&run), StartError::BootFailedBefore);
    assert_eq!(run.reason(), "late");
    let booted = || {
        let mut run = claimed(BootRole::Subsequent);
        run.step(StartEvent::Checked(None));
        run
    };
    let mut run = booted();
    run.step(StartEvent::Outcome(false));
    assert_eq!(error(&run), StartError::PlugDisk);
    let mut run = booted();
    run.step(StartEvent::Outcome(true));
    run.step(StartEvent::Checked(Some("gone".to_string())));
    assert_eq!(error(&run), StartError::Agent);
    assert_eq!(run.reason(), "gone");
    let connected = || {
        let mut run = booted();
        run.step(StartEvent::Outcome(true));
        run.step(StartEvent::Checked(None));
        run
    };
    let mut run = connected();
    run.step(StartEvent::Outcome(false));
    assert_eq!(error(&run), StartError::EmptyDirImage);
    let mut run = connected();
    run.step(StartEvent::Outcome(true));
    run.step(StartEvent::Outcome(true));
    run.step(StartEvent::Outcome(false));
    assert_eq!(error(&run), StartError::PlugEmptyDir);
    // An emptyDir that cannot be formatted is passed over.
    let formatted = || {
        let mut run = connected();
        run.step(StartEvent::Outcome(true));
        run.step(StartEvent::Outcome(false));
        run
    };
    let mut run = formatted();
    run.step(StartEvent::Bytes(None));
    assert_eq!(error(&run), StartError::ReadSpec);
    let mut run = formatted();
    run.step(StartEvent::Bytes(Some(vec![])));
    run.step(StartEvent::Files(None));
    assert_eq!(error(&run), StartError::ReadVolume);
    let asked = || {
        let mut run = formatted();
        run.step(StartEvent::Bytes(Some(vec![])));
        run.step(StartEvent::Files(Some(vec![])));
        assert!(matches!(run.action(), StartAction::Create));
        assert_eq!(run.take_request().volumes.len(), 2);
        run
    };
    let mut run = asked();
    run.step(StartEvent::Outcome(false));
    assert_eq!(error(&run), StartError::Create);
    let mut run = asked();
    run.step(StartEvent::Outcome(true));
    run.step(StartEvent::Started(None));
    assert_eq!(error(&run), StartError::Start);
}

const SANDBOX: &str = r#"{"linux": {"namespaces": [{"type": "network", "path": "/run/netns/a"}],
    "cgroupsPath": "/pod", "resources": {"memory": {"limit": 1073741824}}}}"#;

#[test]
fn sandbox_with_a_network() {
    let mut cids = CidAllocator::new();
    let mut run = SandboxStart::new("pod12345", "/bundle");
    assert!(matches!(run.action(), SandboxAction::ReadText(p) if p == "/bundle/config.json"));
    run.on_spec(Some(SANDBOX));
    assert!(matches!(run.action(), SandboxAction::SetUpNetwork(n) if n == "/run/netns/a"));
    run.on_network(None);
    assert!(matches!(run.action(), SandboxAction::Sleep(500)));
    run.on_pause();
    run.on_network(Some(TapInfo {
        tap_name: "tap_pod12345".to_string(),
        mac: "02:00:00:00:00:01".to_string(),
        ip_cidr: "10.0.0.2/24".to_string(),
        gateway: "10.0.0.1".to_string(),
    }));
    assert!(matches!(run.action(), SandboxAction::LoadConfig));
    run.on_config(Some(config()), &mut cids);
    {
        let vm = run.vm().unwrap();
        assert_eq!(vm.cid(), 3);
        assert_eq!(
            vm.config().kernel_args,
            "console=hvc0 ip=10.0.0.2::10.0.0.1:255.255.255.0::eth0:off"
        );
        assert_eq!(vm.config().hotplug_memory_mb, 512);
    }
    for _ in 0..4 {
        run.on_outcome(true);
    }
    assert!(matches!(run.action(), SandboxAction::Ready));
    let ready = run.finish(Some(8));
    assert_eq!(ready.vm.vm_id(), "pod12345");
    assert_eq!(ready.tap_name, Some("tap_pod12345".to_string()));
    assert_eq!(ready.tap_mac, Some("02:00:00:00:00:01".to_string()));
    assert_eq!(ready.netns, Some("/run/netns/a".to_string()));
    assert_eq!(ready.cgroups_path, Some("/pod".to_string()));
    assert_eq!(ready.max_vcpus, Some(8));
}

fn most_vcpus(annotation: &str, host_cpus: Option<u32>) -> Option<u32> {
    let spec = format!(
        r#"{{"annotations": {{"io.cloudhv.config.hypervisor.default_vcpus": "4",
            "io.katacontainers.config.hypervisor.default_max_vcpus": "{annotation}"}}}}"#
    );
    let mut run = SandboxStart::new("pod", "/bundle");
    run.on_spec(Some(&spec));
    run.on_config(Some(config()), &mut CidAllocator::new());
    for _ in 0..4 {
        run.on_outcome(true);
    }
    run.finish(host_cpus).max_vcpus
}

#[test]
fn annotations_limit_the_vcpus() {
    assert_eq!(most_vcpus("6", Some(64)), Some(6));
    assert_eq!(most_vcpus("4", Some(64)), Some(4));
    // A number below the vCPUs of the boot does not count, nor does what is no number.
    assert_eq!(most_vcpus("3", Some(64)), Some(64));
    assert_eq!(most_vcpus("many", None), None);
}

#[test]
fn sandbox_goes_on_without_a_network() {
    let mut run = SandboxStart::new("pod", "/bundle");
    run.on_spec(Some(SANDBOX));
    let mut attempts = 0;
    while let SandboxAction::SetUpNetwork(_) = run.action() {
        attempts += 1;
        run.on_network(None);
        if let SandboxAction::Sleep(_) = run.action() {
            run.on_pause();
        }
    }
    assert_eq!(attempts, 10);
    run.on_config(Some(config()), &mut CidAllocator::new());
    assert_eq!(run.vm().unwrap().config().kernel_args, "console=hvc0");
    assert_eq!(after_failed_setup(8), Some(500));
    assert_eq!(after_failed_setup(9), None);
}

#[test]
fn sandbox_errors_name_the_step() {
    let configured = || {
        let mut run = SandboxStart::new("pod", "/bundle");
        run.on_spec(None);
        run.on_config(Some(config()), &mut CidAllocator::new());
        run
    };
    let mut run = SandboxStart::new("pod", "/bundle");
    run.on_spec(None);
    run.on_config(None, &mut CidAllocator::new());
    assert!(matches!(run.action(), SandboxAction::Fail(SandboxError::Config)));
    let errors = [
        SandboxError::Prepare,
        SandboxError::Tpm,
        SandboxError::Spawn,
        SandboxError::NotReady,
    ];
    for (n, expected) in errors.iter().enumerate() {
        let mut run = configured();
        for _ in 0..n {
            run.on_outcome(true);
        }
        run.on_outcome(false);
        match run.action() {
            SandboxAction::Fail(e) => assert_eq!(e, *expected),
            a => panic!("not failed: {:?}", a),
        }
    }
}

const ADDRS: &str = r#"[
    {"ifname": "lo", "addr_info": [{"family": "inet", "local": "127.0.0.1", "prefixlen": 8}]},
    {"ifname": "tap_pod", "address": "aa:aa:aa:aa:aa:aa",
     "addr_info": [{"family": "inet", "local": "1.1.1.1", "prefixlen": 8}]},
    {"ifname": "eth0", "address": "02:00:00:00:00:09",
     "addr_info": [{"family": "inet6", "local": "::1", "prefixlen": 64},
                   {"family": "inet", "local": "10.1.2.3", "prefixlen": 24}]}]"#;

#[test]
fn tap_is_set_up_with_commands() {
    let mut run = TapSetup::new("/run/netns/a", "pod");
    let mut commands = Vec::new();
    let mut captures = 0;
    let info = loop {
        let event = match run.action() {
            TapAction::CheckNetns => TapEvent::Netns(true),
            TapAction::Sleep(_) => TapEvent::Slept,
            TapAction::Run(args) => {
                assert_eq!(args[..2], ["--net=/run/netns/a", "--"]);
                commands.push(args[2..].join(" "));
                TapEvent::Ran(Some(true))
            }
            TapAction::Capture(_) => {
                captures += 1;
                TapEvent::Captured(Some(match captures {
                    1 => b"[]".to_vec(),
                    2 => ADDRS.as_bytes().to_vec(),
                    _ => b"[{\"dst\": \"default\", \"gateway\": \"10.1.2.1\"}]".to_vec(),
                }))
            }
            TapAction::Done(info) => break info,
            TapAction::Fail(e) => panic!("failed: {:?}", e),
        };
        run.step(event);
    };
    assert_eq!(info.tap_name, "tap_pod");
    assert_eq!(info.mac, "02:00:00:00:00:09");
    assert_eq!(info.ip_cidr, "10.1.2.3/24");
    assert_eq!(info.gateway, "10.1.2.1");
    assert_eq!(commands[0], "ip link del tap_pod");
    assert!(commands.last().unwrap().starts_with("ip addr flush dev eth0"));
    assert_eq!(commands.iter().filter(|c| c.contains("redirect")).count(), 2);
    assert_eq!(tap_name("0123456789"), "tap_01234567");
}

#[test]
fn tap_errors_name_the_step() {
    let mut run = TapSetup::new("/n", "pod");
    let mut looks = 0;
    loop {
        match run.action() {
            TapAction::CheckNetns => {
                looks += 1;
                run.step(TapEvent::Netns(false));
            }
            TapAction::Sleep(ms) => {
                assert_eq!(ms, 100);
                run.step(TapEvent::Slept);
            }
            TapAction::Fail(e) => {
                assert_eq!(e, TapError::NetnsMissing);
                break;
            }
            a => panic!("unexpected {:?}", a),
        }
    }
    assert_eq!(looks, 20);
    let mut run = TapSetup::new("/n", "pod");
    run.step(TapEvent::Netns(true));
    run.step(TapEvent::Ran(Some(false)));
    run.step(TapEvent::Ran(Some(false)));
    assert!(matches!(run.action(), TapAction::Fail(TapError::Create)));
    let mut run = TapSetup::new("/n", "pod");
    run.step(TapEvent::Netns(true));
    run.step(TapEvent::Ran(Some(true)));
    run.step(TapEvent::Ran(None));
    assert!(matches!(run.action(), TapAction::Fail(TapError::Command)));
    let mut run = TapSetup::new("/n", "pod");
    run.step(TapEvent::Netns(true));
    run.step(TapEvent::Ran(Some(true)));
    run.step(TapEvent::Ran(Some(true)));
    run.step(TapEvent::Ran(Some(false)));
    assert!(matches!(run.action(), TapAction::Fail(TapError::Up)));
}

#[test]
fn missing_addresses_or_routes_fail_the_setup() {
    for (addrs, expected) in [("[]", TapError::NoVeth), (ADDRS, TapError::NoGateway)] {
        let mut run = TapSetup::new("/n", "pod");
        let mut found = false;
        loop {
            let event = match run.action() {
                TapAction::CheckNetns => TapEvent::Netns(true),
                TapAction::Sleep(_) => TapEvent::Slept,
                TapAction::Run(_) => TapEvent::Ran(Some(true)),
                TapAction::Capture(_) => {
                    let out = if found { "[]" } else { addrs };
                    found = true;
                    TapEvent::Captured(Some(out.as_bytes().to_vec()))
                }
                TapAction::Done(_) => panic!("something is missing"),
                TapAction::Fail(e) => {
                    assert_eq!(e, expected);
                    break;
                }
            };
            run.step(event);
        }
    }
}

const MIB: u64 = 1024 * 1024;

fn monitor() -> MemoryMonitor {
    let config = MemoryMonitorConfig {
        boot_memory_bytes: 128 * MIB,
        max_memory_bytes: 300 * MIB,
        api_socket: "/a".to_string(),
        vsock_socket: "/v".to_string(),
        shared_dir: "/run/cloudhv/pod/shared".to_string(),
    };
    assert_eq!(config.pressure_signal_path(), "/run/cloudhv/pod/shared/memory-pressure");
    MemoryMonitor::new(&config)
}

#[test]
fn pressure_grows_memory_up_to_the_limit() {
    let mut m = monitor();
    assert_eq!(m.step(MonitorEvent::Signal(true)), MonitorAction::Resize(256 * MIB));
    assert_eq!(m.step(MonitorEvent::Resized(true)), MonitorAction::Pause(1000));
    assert_eq!(m.step(MonitorEvent::TimeUp), MonitorAction::CheckSignal);
    assert_eq!(m.step(MonitorEvent::Signal(true)), MonitorAction::Resize(300 * MIB));
    m.step(MonitorEvent::Resized(true));
    m.step(MonitorEvent::TimeUp);
    assert_eq!(m.current, 300 * MIB);
    assert_ne!(m.step(MonitorEvent::Signal(true)), MonitorAction::Resize(300 * MIB));
}

#[test]
fn plentiful_memory_is_given_back_after_the_cooldown() {
    let mut m = monitor();
    let figures = |m: &mut MemoryMonitor, total_kb, available_kb, now_ms| {
        assert_eq!(m.step(MonitorEvent::Signal(false)), MonitorAction::Wait(5000));
        assert_eq!(m.step(MonitorEvent::TimeUp), MonitorAction::QueryGuest);
        m.step(MonitorEvent::Figures { total_kb, available_kb, now_ms })
    };
    assert_eq!(figures(&mut m, 1000, 100, 0), MonitorAction::Resize(256 * MIB));
    assert_eq!(m.step(MonitorEvent::Resized(true)), MonitorAction::CheckSignal);
    assert_eq!(figures(&mut m, 1000, 600, 1000), MonitorAction::CheckSignal);
    assert_eq!(figures(&mut m, 1000, 600, 60999), MonitorAction::CheckSignal);
    assert_eq!(figures(&mut m, 1000, 600, 61000), MonitorAction::Resize(128 * MIB));
    assert_eq!(m.step(MonitorEvent::Resized(true)), MonitorAction::CheckSignal);
    assert_eq!(m.current, 128 * MIB);
    assert_eq!(m.step(MonitorEvent::Shutdown), MonitorAction::Stop);
    assert_eq!(m.step(MonitorEvent::TimeUp), MonitorAction::Stop);
}

#[test]
fn scarce_memory_starts_the_cooldown_again() {
    let mut m = monitor();
    let figures = |m: &mut MemoryMonitor, available_kb, now_ms| {
        m.step(MonitorEvent::Signal(false));
        m.step(MonitorEvent::TimeUp);
        m.step(MonitorEvent::Figures { total_kb: 1000, available_kb, now_ms })
    };
    figures(&mut m, 100, 0);
    m.step(MonitorEvent::Resized(true));
    figures(&mut m, 600, 1000);
    figures(&mut m, 400, 2000);
    assert_eq!(m.reclaim_since, None);
    figures(&mut m, 600, 3000);
    assert_eq!(figures(&mut m, 600, 62000), MonitorAction::CheckSignal);
    assert_eq!(figures(&mut m, 600, 63000), MonitorAction::Resize(128 * MIB));
}

#[test]
fn pool_is_a_bounded_queue() {
    let mut pool: VmPool<u32> = VmPool::new(config());
    assert!(pool.is_enabled());
    assert!(pool.wants_more());
    assert!(pool.refill(Some(1)));
    assert!(!pool.refill(Some(2)));
    assert!(!pool.wants_more());
    assert_eq!(pool.available_count(), 2);
    assert_eq!(pool.try_acquire(), Some(1));
    assert!(!pool.refill(None));
    assert_eq!(pool.drain(), vec![2]);
    assert_eq!(pool.try_acquire(), None);
}

#[test]
fn pool_names_are_random() {
    let a = new_pool_vm_id();
    let b = new_pool_vm_id();
    assert!(a.starts_with("pool-"));
    assert_eq!(a.len(), 37);
    assert_eq!(a.as_bytes()[5 + 12], b'4');
    assert!(a[5..].chars().all(|c| c.is_ascii_hexdigit() && !c.is_ascii_uppercase()));
    assert_ne!(a, b);
}

#[test]
fn warm_vm_is_restored_where_possible() {
    assert_eq!(warm_start(false), WarmPhase::Prepare);
    let phase = warm_start(true);
    assert_eq!(phase, WarmPhase::Restore);
    assert_eq!(create_warm_vm(phase, WarmEvent::Outcome(true)), WarmPhase::WaitAgent);
    assert_eq!(create_warm_vm(phase, WarmEvent::Outcome(false)), WarmPhase::Prepare);
}

#[test]
fn warm_vm_takes_every_step() {
    let mut phase = WarmPhase::Prepare;
    for _ in 0..4 {
        phase = create_warm_vm(phase, WarmEvent::Outcome(true));
    }
    assert_eq!(phase, WarmPhase::WaitSockets);
    assert_eq!(
        create_warm_vm(phase, WarmEvent::Sockets(false, true)),
        WarmPhase::Failed(WarmError::VirtiofsdNotReady)
    );
    assert_eq!(
        create_warm_vm(phase, WarmEvent::Sockets(true, false)),
        WarmPhase::Failed(WarmError::NotReady)
    );
    phase = create_warm_vm(phase, WarmEvent::Sockets(true, true));
    phase = create_warm_vm(phase, WarmEvent::Outcome(true));
    phase = create_warm_vm(phase, WarmEvent::Outcome(true));
    let mut attempts = 0;
    while let WarmPhase::Connect(_) = phase {
        attempts += 1;
        assert_eq!(create_warm_vm(phase, WarmEvent::Outcome(true)), WarmPhase::Done);
        phase = create_warm_vm(phase, WarmEvent::Outcome(false));
        phase = create_warm_vm(phase, WarmEvent::Slept);
    }
    assert_eq!(attempts, 5);
    assert_eq!(phase, WarmPhase::Failed(WarmError::Connect));
}
