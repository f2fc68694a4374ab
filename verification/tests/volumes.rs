use cloudhv::container::InlineFileInfo;
use cloudhv::hash::{stable_hash_hex, volume_id_for};
use cloudhv::oci::{
    detect_block_fs_type, extract_volumes, parse_container_type, parse_sandbox_spec,
    volume_sources, VolumeSpec,
};
use cloudhv::start::{ContainerStart, StartAction, StartError, StartEvent};
use cloudhv::text;
use cloudhv::walk::{EntryKind, VolumeWalk, WalkAction, WalkEvent};

fn spec_with(mounts: &str) -> String {
    format!(
        r#"{{
            "ociVersion": "1.0.2",
            "process": {{
                "terminal": false,
                "user": {{ "uid": 0, "gid": 0 }},
                "args": ["/bin/sh"],
                "env": ["PATH=/bin"],
                "cwd": "/"
            }},
            "root": {{ "path": "rootfs", "readonly": false }},
            "linux": {{ "namespaces": [{{"type": "pid"}}, {{"type": "mount"}}] }},
            "mounts": [{}]
        }}"#,
        mounts
    )
}

fn volumes(mounts: &str) -> Vec<VolumeSpec> {
    extract_volumes(spec_with(mounts).as_str(), &text::empty_table()).unwrap()
}

#[test]
fn extract_volumes_empty_spec() {
    assert!(volumes("").is_empty());
}

#[test]
fn extract_volumes_skips_system_mounts() {
    let vols = volumes(
        r#"{"destination": "/proc", "source": "/proc", "type": "bind"},
           {"destination": "/dev", "source": "/dev", "type": "bind"},
           {"destination": "/sys", "source": "/sys", "type": "bind"},
           {"destination": "/dev/pts", "source": "/dev/pts", "type": "bind"},
           {"destination": "/dev/mqueue", "source": "/dev/mqueue", "type": "bind"},
           {"destination": "/dev/shm", "source": "/dev/shm", "type": "bind"},
           {"destination": "/sys/fs/cgroup", "source": "/sys/fs/cgroup", "type": "bind"}"#,
    );
    assert!(vols.is_empty(), "system mounts should be filtered out");
}

#[test]
fn extract_volumes_skips_non_bind_mounts() {
    let vols = volumes(
        r#"{"destination": "/tmp", "source": "tmpfs", "type": "tmpfs"},
           {"destination": "/mnt/proc", "source": "proc", "type": "proc"}"#,
    );
    assert!(vols.is_empty(), "non-bind mounts should be filtered out");
}

#[test]
fn extract_volumes_detects_configmap_readonly() {
    let vols = volumes(
        r#"{"destination": "/etc/config", "source": "/tmp/x/configmap-data", "type": "bind",
            "options": ["rbind", "ro"]}"#,
    );
    assert_eq!(vols.len(), 1);
    assert_eq!(vols[0].destination, "/etc/config");
    assert!(vols[0].readonly, "should be readonly");
    assert!(!vols[0].is_block, "directory is not a block device");
    assert!(!vols[0].is_empty_dir, "no 'empty-dir' in path");
    assert_eq!(vols[0].volume_id, volume_id_for("/etc/config"));
}

#[test]
fn extract_volumes_detects_emptydir() {
    let vols = volumes(
        r#"{"destination": "/scratch",
            "source": "/tmp/x/pods/uid/volumes/kubernetes.io~empty-dir/scratch",
            "type": "bind", "options": []}"#,
    );
    assert_eq!(vols.len(), 1);
    assert!(vols[0].is_empty_dir, "path contains 'empty-dir'");
    assert!(!vols[0].readonly, "emptyDir is writable");
}

#[test]
fn extract_volumes_readonly_emptydir_not_detected() {
    let vols = volumes(
        r#"{"destination": "/cache",
            "source": "/tmp/x/pods/uid/volumes/kubernetes.io~empty-dir/cache",
            "type": "bind", "options": ["ro"]}"#,
    );
    assert_eq!(vols.len(), 1);
    assert!(!vols[0].is_empty_dir, "readonly mount should not be emptyDir");
}

#[test]
fn extract_volumes_multiple_volumes() {
    let vols = volumes(
        r#"{"destination": "/etc/config", "source": "/tmp/x/cm", "type": "bind", "options": ["ro"]},
           {"destination": "/etc/secrets", "source": "/tmp/x/secret", "type": "bind", "options": ["ro"]},
           {"destination": "/tmp", "source": "/tmp/x/pods/x/volumes/kubernetes.io~empty-dir/tmp",
            "type": "bind", "options": []},
           {"destination": "/proc", "source": "/proc", "type": "bind"}"#,
    );
    assert_eq!(vols.len(), 3, "3 user volumes, /proc filtered");
    assert!(vols[0].readonly);
    assert!(vols[1].readonly);
    assert!(vols[2].is_empty_dir);
}

#[test]
fn extract_volumes_no_mounts_key() {
    let vols = extract_volumes(
        r#"{"ociVersion": "1.0.2", "process": {"args": ["/bin/sh"]}, "root": {"path": "rootfs"}}"#,
        &text::empty_table(),
    )
    .unwrap();
    assert!(vols.is_empty());
}

#[test]
fn extract_volumes_invalid_json_is_error() {
    assert!(extract_volumes("not json", &text::empty_table()).is_err());
}

#[test]
fn extract_volumes_missing_file_is_error() {
    let mut run = ContainerStart::new("0123456789abcdef", "/nonexistent", "/run/cloudhv/pod");
    match run.action() {
        StartAction::ReadText(path) => assert_eq!(path, "/nonexistent/config.json"),
        _ => panic!("the specification is read first"),
    }
    run.step(StartEvent::Text(None));
    assert!(matches!(run.action(), StartAction::Fail(StartError::ReadSpec)));
}

#[test]
fn block_sources_become_block_volumes() {
    let spec = spec_with(
        r#"{"destination": "/data", "source": "/dev/sdb", "type": "bind", "options": ["rw"]},
           {"destination": "/logs", "source": "/var/log/app", "type": "bind"}"#,
    );
    assert_eq!(volume_sources(spec.as_str()), vec!["/dev/sdb", "/var/log/app"]);
    let mut blocks = text::empty_table();
    blocks.insert("/dev/sdb".to_string(), "xfs".to_string());
    let vols = extract_volumes(spec.as_str(), &blocks).unwrap();
    assert!(vols[0].is_block);
    assert_eq!(vols[0].fs_type, "xfs");
    assert!(!vols[1].is_block);
    assert_eq!(vols[1].fs_type, "");
}

#[test]
fn block_fs_type_is_trimmed_output() {
    assert_eq!(detect_block_fs_type(b"ext4\n"), Some("ext4".to_string()));
    assert_eq!(detect_block_fs_type(b" \n"), None);
    assert_eq!(detect_block_fs_type(b"x\xff\n"), Some("x\u{fffd}".to_string()));
}

#[test]
fn volume_id_is_deterministic() {
    let id1 = volume_id_for("/etc/config");
    let id2 = volume_id_for("/etc/config");
    assert_eq!(id1, id2);
    let id3 = volume_id_for("/etc/secrets");
    assert_ne!(id1, id3);
}

#[test]
fn volume_id_has_an_exact_value() {
    // 5381 * 33 + 'a'
    assert_eq!(volume_id_for("a"), format!("{:x}", 5381u64 * 33 + 97));
    assert_eq!(volume_id_for(""), "1505");
}

#[test]
fn stable_hash_is_deterministic() {
    let h1 = stable_hash_hex("hello world");
    let h2 = stable_hash_hex("hello world");
    assert_eq!(h1, h2);
    assert_eq!(h1.len(), 32);
    let h3 = stable_hash_hex("different input");
    assert_ne!(h1, h3);
}

#[test]
fn stable_hash_of_nothing_is_the_offset() {
    assert_eq!(stable_hash_hex(""), "6c62272e07bb014262b821756295c58d");
}

#[test]
fn container_type_comes_from_annotations() {
    let sandbox = r#"{"annotations": {"io.kubernetes.cri.container-type": "sandbox"}}"#;
    assert_eq!(parse_container_type(Some(sandbox), "me"), (true, "me".to_string()));
    let app = r#"{"annotations": {"io.kubernetes.cri.container-type": "container",
        "io.kubernetes.cri.sandbox-id": "pod"}}"#;
    assert_eq!(parse_container_type(Some(app), "me"), (false, "pod".to_string()));
}

#[test]
fn sandbox_spec_of_a_pod() {
    let s = parse_sandbox_spec(Some(
        r#"{"linux": {"namespaces": [{"type": "pid"}, {"type": "network", "path": "/run/netns/a"}],
            "cgroupsPath": "/kubepods/pod1",
            "resources": {"memory": {"limit": 268435456}}}}"#,
    ));
    assert_eq!(s.netns, Some("/run/netns/a".to_string()));
    assert_eq!(s.cgroups_path, Some("/kubepods/pod1".to_string()));
    assert_eq!(s.mem_limit, Some(256));
    assert_eq!(s.mem_request, None);
    assert_eq!(s.annotations.len(), 0);
    let none = parse_sandbox_spec(None);
    assert_eq!(none.netns, None);
}

fn find<'a>(files: &'a [InlineFileInfo], path: &str) -> Option<&'a InlineFileInfo> {
    files.iter().find(|f| f.path == path)
}

#[test]
fn read_volume_files_reads_directory() {
    let mut walk = VolumeWalk::new("/vol/configmap");
    let files = loop {
        let event = match walk.action() {
            WalkAction::Stat(p) => WalkEvent::Kind(match p.as_str() {
                "/vol/configmap" | "/vol/configmap/subdir" => Some(EntryKind::Directory),
                "/vol/configmap/link" => Some(EntryKind::Other),
                "/vol/configmap/key" | "/vol/configmap/subdir/nested" => Some(EntryKind::File),
                _ => None,
            }),
            WalkAction::List(p) => WalkEvent::Names(match p.as_str() {
                "/vol/configmap" => {
                    Some(vec!["subdir".to_string(), "link".to_string(), "key".to_string()])
                }
                "/vol/configmap/subdir" => Some(vec!["nested".to_string()]),
                _ => None,
            }),
            WalkAction::Read(p) => WalkEvent::Content(match p.as_str() {
                "/vol/configmap/key" => Some((b"value".to_vec(), 0o644)),
                "/vol/configmap/subdir/nested" => Some((b"deep".to_vec(), 0o600)),
                _ => None,
            }),
            WalkAction::Done => break walk.into_files(),
            WalkAction::Fail => panic!("every file can be read"),
        };
        walk.step(event);
    };
    assert_eq!(files.len(), 2);
    let paths: Vec<&str> = files.iter().map(|f| f.path.as_str()).collect();
    assert!(paths.contains(&"key"));
    assert!(paths.contains(&"subdir/nested"));
    let key_file = find(&files, "key").unwrap();
    assert_eq!(key_file.content, b"value");
    // Files come in the order of the listings, depth first.
    assert_eq!(paths, vec!["subdir/nested", "key"]);
    assert_eq!(files[0].mode, 0o600);
}

#[test]
fn read_volume_files_reads_single_file() {
    let mut walk = VolumeWalk::new("/vol/secret.txt");
    walk.step(WalkEvent::Kind(Some(EntryKind::File)));
    match walk.action() {
        WalkAction::Read(p) => assert_eq!(p, "/vol/secret.txt"),
        _ => panic!("the file is read"),
    }
    walk.step(WalkEvent::Content(Some((b"s3cret".to_vec(), 0o400))));
    assert!(matches!(walk.action(), WalkAction::Done));
    let files = walk.into_files();
    assert_eq!(files.len(), 1);
    assert_eq!(files[0].path, "secret.txt");
    assert_eq!(files[0].content, b"s3cret");
}

#[test]
fn unreadable_volume_fails() {
    let mut walk = VolumeWalk::new("/vol");
    walk.step(WalkEvent::Kind(Some(EntryKind::Directory)));
    walk.step(WalkEvent::Names(Some(vec!["a".to_string()])));
    walk.step(WalkEvent::Kind(Some(EntryKind::File)));
    walk.step(WalkEvent::Content(None));
    assert!(matches!(walk.action(), WalkAction::Fail));
}
