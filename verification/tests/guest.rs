use cloudhv::adapt::adapt_spec;
use cloudhv::agent::{
    append_stderr, append_stdout, get_container_logs, observed_status, reported_status,
    wait_container, LogOffset, LogStream, WaitEvent,
};
use cloudhv::container::{
    bundle, delete_arguments, exit_code, kill_outcome, scan_block_devices, ContainerLogs,
    ContainerManager, ContainerState, ExitStatus, InlineFileInfo, KillAction, VolumeInfo,
};
use cloudhv::create::{CreateAction, CreateError, CreateEvent, CreateRun, VolumeItem};
use cloudhv::json;
use cloudhv::meminfo::{get_mem_info, read_mem_available};
use cloudhv::mount::{
    create_dev_node, is_mounted, mount_essential_filesystems, mount_virtiofs, virtiofs_retry,
    NodeAction, SetupStep,
};
use cloudhv::pressure::{handle_pressure_event, run_pressure_watcher, PollResult, PollStep};

fn names(v: &[&str]) -> Vec<String> {
    v.iter().map(|s| s.to_string()).collect()
}

fn file(path: &str, content: &[u8], mode: u32) -> InlineFileInfo {
    InlineFileInfo { path: path.to_string(), content: content.to_vec(), mode }
}

fn volume(destination: &str, source: &str, is_block: bool, files: Vec<InlineFileInfo>) -> VolumeInfo {
    VolumeInfo {
        destination: destination.to_string(),
        source: source.to_string(),
        readonly: false,
        is_block,
        fs_type: String::new(),
        inline_files: files,
    }
}

#[test]
fn new_disks_are_handed_out_once() {
    let disks = scan_block_devices(&names(&["vda", "loop0", "vdb", "sda"]));
    assert_eq!(disks, vec!["vda", "vdb"]);
    let mut m = ContainerManager::new(&disks);
    assert_eq!(m.discover_block_device(&disks), None);
    let now = names(&["vda", "vdb", "vdc", "vdd"]);
    assert_eq!(m.discover_block_device(&now), Some("/dev/vdc".to_string()));
    assert_eq!(m.discover_block_device(&now), Some("/dev/vdd".to_string()));
    assert_eq!(m.discover_block_device(&now), None);
}

#[test]
fn life_of_a_container() {
    let mut m = ContainerManager::new(&vec![]);
    assert!(m.start("c1").is_none());
    assert_eq!(m.state("c1").state, None);
    m.created("c1", 0);
    assert_eq!(m.start("c1").unwrap(), vec!["run", "--bundle", "/run/containers/c1", "c1"]);
    assert_eq!(m.started("c1", Some(42)), 42);
    let s = m.state("c1");
    assert_eq!(s.state, Some(ContainerState::Running));
    assert_eq!(s.pid, 42);
    match m.kill("c1", 15) {
        KillAction::Run(args) => assert_eq!(args, vec!["kill", "c1", "15"]),
        KillAction::Nothing => panic!("the container runs"),
    }
    m.mark_stopped("c1", -1);
    assert!(matches!(m.kill("c1", 9), KillAction::Nothing));
    assert_eq!(m.state("c1").exit_status, u32::MAX);
    assert_eq!(m.delete("c1"), (42, -1));
    assert_eq!(m.delete("c1"), (0, 0));
    assert_eq!(delete_arguments("c1"), vec!["delete", "--force", "c1"]);
    assert_eq!(bundle("c1"), "/run/containers/c1");
}

#[test]
fn killing_what_is_gone_is_no_error() {
    assert_eq!(kill_outcome(true, b""), Ok(()));
    assert_eq!(kill_outcome(false, b"container not found"), Ok(()));
    assert_eq!(kill_outcome(false, b"No such file or directory"), Ok(()));
    assert_eq!(kill_outcome(false, b"denied\xff"), Err("denied\u{fffd}".to_string()));
}

#[test]
fn exit_codes() {
    assert_eq!(exit_code(Some(Some(3))), 3);
    assert_eq!(exit_code(Some(None)), 137);
    assert_eq!(exit_code(None), 137);
    assert_eq!(reported_status(-1), u32::MAX);
    assert_eq!(reported_status(7), 7);
    assert_eq!(observed_status(Some(5)), 5);
    assert_eq!(observed_status(None), 137);
    let now = "2024-01-01T00:00:00+00:00".to_string();
    let known = ExitStatus { code: 4, exited_at: "then".to_string() };
    assert_eq!(wait_container(WaitEvent::Changed(Some(known)), now.clone()).code, 4);
    assert_eq!(wait_container(WaitEvent::Changed(None), now.clone()).code, 137);
    assert_eq!(wait_container(WaitEvent::Lost, now.clone()).code, 137);
    let late = wait_container(WaitEvent::TimedOut, now.clone());
    assert_eq!(late.code, 137);
    assert_eq!(late.exited_at, now);
}

#[test]
fn logs_are_followed_part_by_part() {
    let mut logs = ContainerLogs::default();
    append_stdout(&mut logs, b"hello ");
    let mut stream = LogStream::new();
    let first = get_container_logs(Some(&logs), stream.offset);
    assert!(stream.take_in(Some(&first)));
    append_stdout(&mut logs, b"world");
    append_stderr(&mut logs, b"!");
    logs.eof = true;
    let second = get_container_logs(Some(&logs), stream.offset);
    assert!(!stream.take_in(Some(&second)));
    assert_eq!([first.stdout, second.stdout].concat(), b"hello world");
    assert_eq!([first.stderr, second.stderr].concat(), b"!");
    assert_eq!(stream.offset, LogOffset { stdout: 11, stderr: 1 });
    assert!(!stream.take_in(None));
    assert_eq!(stream.offset, LogOffset { stdout: 11, stderr: 1 });
    let none = get_container_logs(None, stream.offset);
    assert!(none.eof && none.stdout.is_empty() && none.stderr.is_empty());
    assert_eq!(none.offset, LogOffset { stdout: 0, stderr: 0 });
}

#[test]
fn the_shorter_stream_is_not_cut() {
    let mut logs = ContainerLogs::default();
    append_stdout(&mut logs, b"abc");
    append_stderr(&mut logs, b"0123456789");
    let first = get_container_logs(Some(&logs), LogOffset { stdout: 0, stderr: 0 });
    append_stdout(&mut logs, b"def");
    let second = get_container_logs(Some(&logs), first.offset);
    assert_eq!([first.stdout, second.stdout].concat(), b"abcdef");
    assert_eq!([first.stderr, second.stderr].concat(), b"0123456789");
    let third = get_container_logs(Some(&logs), second.offset);
    assert!(third.stdout.is_empty() && third.stderr.is_empty());
}

#[test]
fn host_resources_leave_the_specification() {
    let spec = json::parse(
        r#"{"hostname": "h", "process": {"args": ["a"], "apparmorProfile": "p", "selinuxLabel": "s",
              "oomScoreAdj": 1},
            "linux": {"cgroupsPath": "/x", "resources": {"memory": {}}, "seccomp": {},
              "namespaces": [{"type": "pid"}, {"type": "network", "path": "/n"},
                             {"type": "mount"}, {"type": "ipc"}, {"type": "uts"}]},
            "mounts": [{"destination": "/host"}], "root": {"path": "rootfs"}}"#,
    )
    .unwrap();
    let out = adapt_spec(spec, vec![]);
    assert!(out.get("hostname").is_none());
    assert_eq!(out.get("mounts").unwrap().as_array().unwrap().len(), 0);
    assert_eq!(out.pointer(&["root", "path"]).unwrap().as_str(), Some("rootfs"));
    let process = out.get("process").unwrap();
    assert!(process.get("apparmorProfile").is_none());
    assert!(process.get("selinuxLabel").is_none());
    assert!(process.get("oomScoreAdj").is_none());
    assert!(process.get("args").is_some());
    let ns = out.pointer(&["linux", "namespaces"]).unwrap().as_array().unwrap();
    let types: Vec<&str> = ns.iter().map(|n| n.get("type").unwrap().as_str().unwrap()).collect();
    assert_eq!(types, vec!["mount", "pid"]);
    assert!(out.pointer(&["linux", "cgroupsPath"]).is_none());
}

#[test]
fn volumes_become_mounts() {
    let mut m = ContainerManager::new(&names(&["vda"]));
    let volumes = vec![
        volume("/etc/config", "/run/containers/c/volumes/1", false, vec![file("a", b"1", 0), file("b", b"2", 0)]),
        volume("/etc/app.conf", "/run/containers/c/volumes/2", false, vec![file("app.conf", b"x", 0)]),
        VolumeInfo {
            fs_type: "ext4".to_string(),
            readonly: true,
            ..volume("/data", "/dev/sdb", true, vec![])
        },
    ];
    let text = m
        .adapt_oci_spec_for_vm("{\"mounts\": []}", &volumes, &names(&["vda", "vdb"]))
        .unwrap();
    let v: serde_json::Value = serde_json::from_str(&text).unwrap();
    let mounts = v["mounts"].as_array().unwrap();
    assert_eq!(mounts.len(), 7);
    assert_eq!(mounts[0]["destination"], "/proc");
    assert_eq!(mounts[4]["source"], "/run/containers/c/volumes/1");
    assert_eq!(mounts[5]["source"], "/run/containers/c/volumes/2/app.conf");
    assert_eq!(mounts[6]["source"], "/dev/vdb");
    assert_eq!(mounts[6]["type"], "ext4");
    assert_eq!(mounts[6]["options"][0], "ro");
    assert!(text.contains("\n  \"mounts\": ["), "the text is indented");
    assert!(m.adapt_oci_spec_for_vm("{", &volumes, &vec![]).is_err());
}

fn run_create(run: &mut CreateRun, present: &[&str]) -> Vec<String> {
    let mut seen = Vec::new();
    loop {
        let event = match run.action() {
            CreateAction::MakeDir(d) => {
                seen.push(format!("mkdir {}", d));
                CreateEvent::Outcome(true)
            }
            CreateAction::FindDisk => CreateEvent::Disk(Some("/dev/vdc".to_string()), 0),
            CreateAction::Sleep(_) => CreateEvent::Slept,
            CreateAction::MountDisk(dev, dir) => {
                seen.push(format!("mount {} {}", dev, dir));
                CreateEvent::Outcome(true)
            }
            CreateAction::Exists(p) => CreateEvent::Outcome(present.contains(&p.as_str())),
            CreateAction::Bind(a, b) => {
                seen.push(format!("bind {} {}", a, b));
                CreateEvent::Outcome(true)
            }
            CreateAction::WriteConfig(f) => {
                seen.push(format!("config {}", f));
                CreateEvent::Outcome(true)
            }
            CreateAction::Copy(a, b) => {
                seen.push(format!("copy {} {}", a, b));
                CreateEvent::Outcome(true)
            }
            CreateAction::WriteItem(i) => {
                match run.item(i) {
                    VolumeItem::Dir(d) => seen.push(format!("dir {}", d)),
                    VolumeItem::File { path, mode, .. } => {
                        seen.push(match mode {
                            Some(m) => format!("file {} {:o}", path, m),
                            None => format!("file {}", path),
                        })
                    }
                }
                CreateEvent::Outcome(true)
            }
            CreateAction::Symlink(a, b) => {
                seen.push(format!("link {} {}", a, b));
                CreateEvent::Outcome(true)
            }
            CreateAction::Adapt(f) => {
                seen.push(format!("adapt {}", f));
                CreateEvent::Outcome(true)
            }
            CreateAction::Done => return seen,
            CreateAction::Fail(e) => {
                seen.push(format!("{:?}", e));
                return seen;
            }
        };
        run.step(event);
    }
}

#[test]
fn preattached_container_with_inline_specification() {
    let volumes = vec![volume(
        "/etc/config",
        "/run/containers/c/volumes/abc",
        false,
        vec![file("key", b"v", 0o600), file("../evil", b"v", 0), file("plain", b"v", 0)],
    )];
    let mut run = CreateRun::new("c", &volumes, true, true);
    let seen = run_create(&mut run, &["/run/containers/c/_disk/rootfs"]);
    assert_eq!(
        seen,
        vec![
            "mkdir /run/containers/c",
            "mkdir /run/containers/c/_disk",
            "mount /dev/vdb /run/containers/c/_disk",
            "mkdir /run/containers/c/rootfs",
            "bind /run/containers/c/_disk/rootfs /run/containers/c/rootfs",
            "config /run/containers/c/config.json",
            "dir /run/containers/c/volumes/abc",
            "file /run/containers/c/volumes/abc/key 600",
            "file /run/containers/c/volumes/abc/plain",
            "adapt /run/containers/c/config.json",
        ]
    );
}

#[test]
fn plugged_container_with_specification_on_its_disk() {
    let mut run = CreateRun::new("c", &vec![], false, false);
    let seen = run_create(
        &mut run,
        &["/run/containers/c/_disk/config.json", "/run/containers/c/_disk/volumes"],
    );
    assert_eq!(run.device(), "/dev/vdc");
    assert_eq!(
        seen[3..],
        [
            "mkdir /run/containers/c/rootfs",
            "bind /run/containers/c/_disk /run/containers/c/rootfs",
            "copy /run/containers/c/_disk/config.json /run/containers/c/config.json",
            "link /run/containers/c/_disk/volumes /run/containers/c/volumes",
            "adapt /run/containers/c/config.json",
        ]
    );
}

#[test]
fn container_without_specification_fails() {
    let mut run = CreateRun::new("c", &vec![], false, false);
    let seen = run_create(&mut run, &[]);
    assert_eq!(seen.last().unwrap(), "NoConfig");
}

#[test]
fn disk_that_does_not_appear_or_mount_fails() {
    let mut run = CreateRun::new("c", &vec![], true, false);
    run.step(CreateEvent::Outcome(true));
    run.step(CreateEvent::Outcome(true));
    run.step(CreateEvent::Disk(None, 10000));
    assert!(matches!(run.action(), CreateAction::Sleep(50)));
    run.step(CreateEvent::Slept);
    run.step(CreateEvent::Disk(None, 10001));
    assert!(matches!(run.action(), CreateAction::Fail(CreateError::NoDisk)));

    let mut run = CreateRun::new("c", &vec![], true, true);
    run.step(CreateEvent::Outcome(true));
    run.step(CreateEvent::Outcome(true));
    let mut attempts = 0;
    loop {
        match run.action() {
            CreateAction::MountDisk(_, _) => {
                attempts += 1;
                run.step(CreateEvent::Outcome(false));
            }
            CreateAction::Sleep(ms) => {
                assert_eq!(ms, 100);
                run.step(CreateEvent::Slept);
            }
            CreateAction::Fail(e) => {
                assert_eq!(e, CreateError::MountDisk);
                break;
            }
            _ => panic!("the disk is mounted first"),
        }
    }
    assert_eq!(attempts, 20);
}

#[test]
fn create_errors_name_the_step() {
    let mut run = CreateRun::new("c", &vec![], true, true);
    run.step(CreateEvent::Outcome(false));
    assert!(matches!(run.action(), CreateAction::Fail(CreateError::Write)));
    let mut run = CreateRun::new("c", &vec![], true, true);
    for _ in 0..5 {
        run.step(CreateEvent::Outcome(true));
    }
    run.step(CreateEvent::Outcome(false));
    assert!(matches!(run.action(), CreateAction::Fail(CreateError::BindRootfs)));
}

#[test]
fn guest_file_systems_in_order() {
    let steps = mount_essential_filesystems();
    assert_eq!(steps.len(), 18);
    match &steps[0] {
        SetupStep::Mount(m) => {
            assert_eq!(m.target, "/proc");
            assert_eq!(m.flags, 2 | 4 | 8);
        }
        _ => panic!("/proc comes first"),
    }
    match &steps[3] {
        SetupStep::Node(n) => assert_eq!((n.path.as_str(), n.major, n.minor), ("/dev/null", 1, 3)),
        _ => panic!("/dev/null follows /dev"),
    }
    let share = mount_virtiofs();
    assert_eq!(share.source, "containerfs");
    assert_eq!(share.target, "/containers");
    assert_eq!(virtiofs_retry(9), Some(100));
    assert_eq!(virtiofs_retry(10), None);
    assert!(is_mounted("proc /proc proc rw 0 0\n", "/proc"));
    assert!(!is_mounted("proc /proc proc rw 0 0\n", "proc"));
}

#[test]
fn device_nodes_get_their_number() {
    match create_dev_node("/dev/tty", 5, 0, 0o666, false) {
        NodeAction::Make(p, mode, dev) => {
            assert_eq!(p, "/dev/tty");
            assert_eq!(mode, 0o666);
            assert_eq!(dev, 0x500);
        }
        NodeAction::SetMode(_, _) => panic!("the node does not exist"),
    }
    match create_dev_node("/dev/x", 0x1234_5678, 0x9abc_def0, 0o600, false) {
        NodeAction::Make(_, _, dev) => assert_eq!(dev, 0x1234_59ab_cde6_78f0),
        NodeAction::SetMode(_, _) => panic!("the node does not exist"),
    }
    assert!(matches!(
        create_dev_node("/dev/tty", 5, 0, 0o666, true),
        NodeAction::SetMode(_, 0o666)
    ));
}

#[test]
fn memory_figures() {
    let text = "MemTotal:  1000 kB\nMemFree: 200 kB\nMemAvailable:   300 kB\nBuffers: x kB\n\
                Cached: 5\nSwapTotal:\nSwapFree: 1 kB\nMemFree: 250 kB\n";
    assert_eq!(read_mem_available(text), Some(300));
    assert_eq!(read_mem_available("MemTotal: 1 kB\n"), None);
    let m = get_mem_info(text);
    assert_eq!(m.mem_total_kb, 1000);
    assert_eq!(m.mem_free_kb, 250);
    assert_eq!(m.mem_available_kb, 300);
    assert_eq!(m.buffers_kb, 0);
    assert_eq!(m.cached_kb, 5);
    assert_eq!(m.swap_total_kb, 0);
    assert_eq!(m.swap_free_kb, 1);
}

#[test]
fn pressure_is_signalled_with_the_available_memory() {
    assert_eq!(run_pressure_watcher(PollResult::Ready(1, true)), PollStep::Signal);
    assert_eq!(run_pressure_watcher(PollResult::Ready(0, true)), PollStep::Wait);
    assert_eq!(run_pressure_watcher(PollResult::Ready(1, false)), PollStep::Wait);
    assert_eq!(run_pressure_watcher(PollResult::Interrupted), PollStep::Wait);
    assert_eq!(run_pressure_watcher(PollResult::Failed), PollStep::Stop);
    assert_eq!(
        handle_pressure_event("/containers", Some("MemAvailable: 77 kB\n")),
        ("/containers/memory-pressure".to_string(), "77\n".to_string())
    );
    assert_eq!(handle_pressure_event("/containers", None).1, "0\n");
}
