//! The data that a scan produces and that the calling layer keeps.

use vstd::prelude::*;
use vstd::string::*;
use crate::docker::{DockerPortBinding, DockerView};
use crate::text::{dec_digits, int_text, push_char, push_dec, push_int};
use crate::wsl::{WslPortBinding, WslView};

verus! {

/// Which source observed a binding.
#[derive(Clone, Copy, Debug, PartialEq, Eq, Structural)]
pub enum BindingSource {
    WindowsStack,
    Docker,
    Wsl,
    UnknownShadow,
}

/// One observed binding of a port to a process, container, guest process or
/// unexplained holder.
#[derive(Clone, Debug, PartialEq)]
pub struct PortBinding {
    /// Process id; 0 where no host process stands behind the binding.
    pub pid: u32,
    /// Process name, container name and image, guest process, or a marker.
    pub process_name: String,
    /// Local address, without the port.
    pub local_ip: String,
    pub local_port: u16,
    /// Connection state as the source reports it.
    pub state: String,
    /// The address lies in 127.0.0.0/8 or is the IPv6 loopback.
    pub is_loopback: bool,
    /// The address is the IPv4 or IPv6 wildcard.
    pub is_all_interfaces: bool,
    /// The owning process id no longer names a live process.
    pub is_orphan: bool,
    /// The owner is a kernel-reserved process id (0 or 4).
    pub is_system: bool,
    pub source: BindingSource,
    /// Provenance: container id, distribution name, or a probe note.
    pub source_detail: String,
}

/// The mathematical value of a [`PortBinding`].
pub struct BindingView {
    pub pid: u32,
    pub process_name: Seq<char>,
    pub local_ip: Seq<char>,
    pub local_port: u16,
    pub state: Seq<char>,
    pub is_loopback: bool,
    pub is_all_interfaces: bool,
    pub is_orphan: bool,
    pub is_system: bool,
    pub source: BindingSource,
    pub source_detail: Seq<char>,
}

impl View for PortBinding {
    type V = BindingView;

    open spec fn view(&self) -> BindingView {
        BindingView {
            pid: self.pid,
            process_name: self.process_name@,
            local_ip: self.local_ip@,
            local_port: self.local_port,
            state: self.state@,
            is_loopback: self.is_loopback,
            is_all_interfaces: self.is_all_interfaces,
            is_orphan: self.is_orphan,
            is_system: self.is_system,
            source: self.source,
            source_detail: self.source_detail@,
        }
    }
}

/// The views of a sequence of bindings.
pub open spec fn binding_views(v: Seq<PortBinding>) -> Seq<BindingView> {
    v.map_values(|b: PortBinding| b@)
}

impl PortBinding {
    /// "Loopback", "All Interfaces" or "Specific IP".
    pub fn scope_description(&self) -> (r: &'static str)
        ensures
            r@ == (if self.is_loopback {
                "Loopback"@
            } else if self.is_all_interfaces {
                "All Interfaces"@
            } else {
                "Specific IP"@
            }),
    {
        if self.is_loopback {
            "Loopback"
        } else if self.is_all_interfaces {
            "All Interfaces"
        } else {
            "Specific IP"
        }
    }

    /// The address as `ip:port`.
    pub fn address(&self) -> (r: String)
        ensures
            r@ == self.local_ip@ + seq![':'] + dec_digits(self.local_port as nat),
    {
        let mut r = self.local_ip.clone();
        push_char(&mut r, ':');
        push_dec(&mut r, self.local_port as u64);
        r
    }

    /// "System/Kernel", "Orphaned" or "Active".
    pub fn process_status(&self) -> (r: &'static str)
        ensures
            r@ == (if self.is_system {
                "System/Kernel"@
            } else if self.is_orphan {
                "Orphaned"@
            } else {
                "Active"@
            }),
    {
        if self.is_system {
            "System/Kernel"
        } else if self.is_orphan {
            "Orphaned"
        } else {
            "Active"
        }
    }
}

/// The reconciled view of one scanned port.
#[derive(Clone, Debug)]
pub struct PortScanResult {
    /// Every binding found, host stack first, then containers, then guests,
    /// then the unexplained-holder marker if any.
    pub bindings: Vec<PortBinding>,
    /// Host processes bound to the port on both a loopback and a wildcard address.
    pub conflict_pids: Vec<u32>,
    /// Host process ids whose bindings outlived the process.
    pub orphan_pids: Vec<u32>,
    /// Container port mappings for the port, as the container runtime listed them.
    pub docker_bindings: Vec<DockerPortBinding>,
    /// Guest listening sockets on the port, as the guests listed them.
    pub wsl_bindings: Vec<WslPortBinding>,
    /// The bind probe found the port busy and no source explains it.
    pub shadow_detected: bool,
}

/// The mathematical value of a [`PortScanResult`]; the two id lists are sets.
pub struct ScanView {
    pub bindings: Seq<BindingView>,
    pub conflict_pids: Set<u32>,
    pub orphan_pids: Set<u32>,
    pub docker_bindings: Seq<DockerView>,
    pub wsl_bindings: Seq<WslView>,
    pub shadow_detected: bool,
}

impl View for PortScanResult {
    type V = ScanView;

    open spec fn view(&self) -> ScanView {
        ScanView {
            bindings: binding_views(self.bindings@),
            conflict_pids: self.conflict_pids@.to_set(),
            orphan_pids: self.orphan_pids@.to_set(),
            docker_bindings: crate::docker::docker_views(self.docker_bindings@),
            wsl_bindings: crate::wsl::wsl_views(self.wsl_bindings@),
            shadow_detected: self.shadow_detected,
        }
    }
}

impl PortScanResult {
    /// The id lists hold no id twice.
    pub open spec fn wf(&self) -> bool {
        self.conflict_pids@.no_duplicates() && self.orphan_pids@.no_duplicates()
    }

    /// A result with nothing in it.
    pub fn empty() -> (r: PortScanResult)
        ensures
            r@.bindings.len() == 0,
            r@.conflict_pids.is_empty(),
            r@.orphan_pids.is_empty(),
            r@.docker_bindings.len() == 0,
            r@.wsl_bindings.len() == 0,
            !r@.shadow_detected,
            r.wf(),
    {
        let r = PortScanResult {
            bindings: Vec::new(),
            conflict_pids: Vec::new(),
            orphan_pids: Vec::new(),
            docker_bindings: Vec::new(),
            wsl_bindings: Vec::new(),
            shadow_detected: false,
        };
        assert(r@.conflict_pids =~= Set::empty());
        assert(r@.orphan_pids =~= Set::empty());
        r
    }
}

impl Default for PortScanResult {
    fn default() -> (r: PortScanResult)
        ensures
            r@.bindings.len() == 0,
            r@.conflict_pids.is_empty(),
            r@.orphan_pids.is_empty(),
            r@.docker_bindings.len() == 0,
            r@.wsl_bindings.len() == 0,
            !r@.shadow_detected,
            r.wf(),
    {
        PortScanResult::empty()
    }
}

/// A network adapter and its addresses.
#[derive(Clone, Debug)]
pub struct NetworkAdapter {
    pub name: String,
    pub addresses: Vec<String>,
    pub is_up: bool,
}

/// What running an external command produced.
#[derive(Clone, Debug, Default)]
pub struct CommandOutput {
    /// The command line that was run.
    pub command: String,
    pub stdout: String,
    pub stderr: String,
    /// Exit code; 0 is success.
    pub exit_code: i32,
    pub duration_ms: u64,
}

/// `s` followed by a line feed unless it is empty or already ends with one.
pub open spec fn output_block(s: Seq<char>) -> Seq<char> {
    if s.len() == 0 {
        s
    } else if s.last() == '\n' {
        s
    } else {
        s.push('\n')
    }
}

/// The display form of a command's output.
pub open spec fn display_text(c: &CommandOutput) -> Seq<char> {
    seq!['$', ' '] + c.command@ + seq!['\n'] + output_block(c.stdout@) + output_block(c.stderr@)
        + "Exit code: "@ + int_text(c.exit_code as int) + seq![' ', '('] + dec_digits(
        c.duration_ms as nat,
    ) + seq!['m', 's', ')', '\n']
}

fn push_block(out: &mut String, s: &String)
    ensures
        final(out)@ == old(out)@ + output_block(s@),
{
    let t = s.as_str();
    let n = t.unicode_len();
    if n == 0 {
        assert(final(out)@ =~= old(out)@ + output_block(s@));
        return;
    }
    out.append(t);
    if t.get_char(n - 1) != '\n' {
        push_char(out, '\n');
    }
    assert(final(out)@ =~= old(out)@ + output_block(s@));
}

impl CommandOutput {
    /// Whether the command exited with code 0.
    pub fn succeeded(&self) -> (r: bool)
        ensures
            r == (self.exit_code == 0),
    {
        self.exit_code == 0
    }

    /// The command line, its output and error streams (each ending in a line
    /// feed), then the exit code and duration.
    pub fn display_output(&self) -> (r: String)
        ensures
            r@ == display_text(self),
    {
        let mut out = String::new();
        push_char(&mut out, '$');
        push_char(&mut out, ' ');
        out.append(self.command.as_str());
        push_char(&mut out, '\n');
        push_block(&mut out, &self.stdout);
        push_block(&mut out, &self.stderr);
        out.append("Exit code: ");
        push_int(&mut out, self.exit_code as i64);
        push_char(&mut out, ' ');
        push_char(&mut out, '(');
        push_dec(&mut out, self.duration_ms);
        push_char(&mut out, 'm');
        push_char(&mut out, 's');
        push_char(&mut out, ')');
        push_char(&mut out, '\n');
        assert(out@ =~= display_text(self));
        out
    }
}

/// The page on show.
#[derive(Clone, Copy, Debug, PartialEq, Eq, Default)]
pub enum CurrentPage {
    #[default]
    Ports,
    Network,
    Docker,
    Services,
}

/// What the ports page keeps between visits.
#[derive(Clone, Debug)]
pub struct PortsPageState {
    pub port_input: u16,
    pub scan_result: PortScanResult,
    pub status_message: String,
    pub status_type: String,
    pub is_scanning: bool,
}

impl PortsPageState {
    /// Port 3010 in the input, an empty result, no status.
    pub fn new() -> (r: PortsPageState)
        ensures
            r.port_input == 3010,
            r.scan_result@.bindings.len() == 0,
            r.scan_result@.conflict_pids.is_empty(),
            r.scan_result@.orphan_pids.is_empty(),
            r.scan_result@.docker_bindings.len() == 0,
            r.scan_result@.wsl_bindings.len() == 0,
            !r.scan_result@.shadow_detected,
            r.scan_result.wf(),
            r.status_message@.len() == 0,
            r.status_type@.len() == 0,
            !r.is_scanning,
    {
        PortsPageState {
            port_input: 3010,
            scan_result: PortScanResult::empty(),
            status_message: String::new(),
            status_type: String::new(),
            is_scanning: false,
        }
    }
}

/// What the network page keeps between visits.
#[derive(Clone, Debug, Default)]
pub struct NetworkPageState {
    pub command_outputs: Vec<CommandOutput>,
    pub status_message: String,
    pub status_type: String,
    pub is_running: bool,
    pub running_action: String,
}

/// What the container page keeps between visits.
#[derive(Clone, Debug, Default)]
pub struct DockerPageState {
    pub command_outputs: Vec<CommandOutput>,
    pub status_message: String,
    pub status_type: String,
    pub is_running: bool,
    pub running_action: String,
    /// Container chosen for logs and actions.
    pub selected_container: String,
    /// Image name typed for a pull.
    pub image_input: String,
    /// Compose file path typed.
    pub compose_path: String,
    /// Container names last listed.
    pub container_names: Vec<String>,
    /// How many log lines to show.
    pub log_tail_lines: u32,
}

impl DockerPageState {
    /// 100 log lines, everything else empty.
    pub fn new() -> (r: DockerPageState)
        ensures
            r.command_outputs@.len() == 0,
            r.status_message@.len() == 0,
            r.status_type@.len() == 0,
            !r.is_running,
            r.running_action@.len() == 0,
            r.selected_container@.len() == 0,
            r.image_input@.len() == 0,
            r.compose_path@.len() == 0,
            r.container_names@.len() == 0,
            r.log_tail_lines == 100,
    {
        DockerPageState {
            command_outputs: Vec::new(),
            status_message: String::new(),
            status_type: String::new(),
            is_running: false,
            running_action: String::new(),
            selected_container: String::new(),
            image_input: String::new(),
            compose_path: String::new(),
            container_names: Vec::new(),
            log_tail_lines: 100,
        }
    }
}

/// One service as the service manager lists it.
#[derive(Clone, Debug, Default)]
pub struct ServiceInfo {
    pub name: String,
    pub display_name: String,
    pub status: String,
    pub start_type: String,
}

/// What the services page keeps between visits.
#[derive(Clone, Debug, Default)]
pub struct ServicesPageState {
    pub command_outputs: Vec<CommandOutput>,
    pub status_message: String,
    pub status_type: String,
    pub is_running: bool,
    pub running_action: String,
    /// Filter typed for the service list.
    pub filter: String,
    /// Service chosen for actions.
    pub selected_service: String,
    /// Services last listed.
    pub services: Vec<ServiceInfo>,
}

} // verus!
