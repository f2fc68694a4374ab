# cloudhv

The verified core of a containerd runtime that runs every Kubernetes pod in a Cloud Hypervisor
virtual machine, and of the agent that runs as init inside the machine.

`src/` is a library. It holds what the runtime decides and computes: how a pod's specification
becomes a VM configuration, how disks, volumes and networks are described, which requests go to the
hypervisor and the agent, and in which order things are done. Every function has a contract, and
Verus proves it. What has to talk to the world is a state machine: it says what to do next, and is
told what came of it.

| Part | Modules |
| --- | --- |
| Text, JSON, HTTP and netlink | `text`, `paths`, `json`, `http`, `netlink`, `hash` |
| Configuration | `types`, `annotations`, `oci`, `error` |
| A VM | `vm`, `vsock`, `memory`, `pool`, `snapshot`, `hypervisor` |
| A pod's network | `net`, `tap`, `netns` |
| A pod | `sandbox`, `start`, `pod`, `request`, `walk`, `erofs`, `mountinfo`, `cgroup`, `image_cache` |
| The guest | `mount`, `container`, `create`, `adapt`, `agent`, `meminfo`, `pressure` |

A few functions of other crates are used through items whose contracts Verus takes on trust. They
stand in `text` (`String::push`, `String::from_utf8_lossy`), `json` (`serde_json`), `pool` (`uuid`)
and `mount` (`nix`), each with a comment that says what is claimed of it.

`app/` is the program around the library: processes, sockets, files, and the remote calls between
shim and agent. `tests/` holds the library's tests.
