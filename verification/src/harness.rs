//! Plans for end-to-end runs in network namespaces: what such a run needs, how its
//! links are named and addressed, and the scripts that feed it.

use crate::sender::addresses::{line_lists_its_address, listed};
use crate::sender::connections::texts;
use crate::text::{blank, decimal, decimal_digits, hex, hex_digits, joined, truncated};
use vstd::prelude::*;
use vstd::string::StringExecFns;
use vstd::utf8::{encode_utf8, is_char_boundary};

verus! {

/// Characters that the name of a network device may have.
pub const MAX_NAME_LEN: usize = 15;

/// Why a run has to be skipped.
pub enum SkipReason {
    NotRoot,
    MissingBinary(String),
    MissingTool(String),
    NoNetem,
}

impl SkipReason {
    /// The reason in words.
    pub open spec fn message(&self) -> Seq<char> {
        match self {
            SkipReason::NotRoot => "requires root / passwordless sudo"@,
            SkipReason::MissingBinary(b) => b@ + " not found in PATH"@,
            SkipReason::MissingTool(t) => "system tool '"@ + t@ + "' not found"@,
            SkipReason::NoNetem => {
                "sch_netem kernel module not available (try: sudo modprobe sch_netem)"@
            },
        }
    }

    /// The reason in words.
    pub fn to_text(&self) -> (s: String)
        ensures
            s@ == self.message(),
    {
        match self {
            SkipReason::NotRoot => "requires root / passwordless sudo".to_owned(),
            SkipReason::MissingBinary(b) => joined(b.as_str(), " not found in PATH"),
            SkipReason::MissingTool(t) => {
                let mut s: String = joined("system tool '", t.as_str());
                s.append("' not found");
                s
            },
            SkipReason::NoNetem => {
                "sch_netem kernel module not available (try: sudo modprobe sch_netem)".to_owned()
            },
        }
    }
}

/// What was found on the machine.
#[derive(Debug, Clone, Copy, PartialEq, Eq, Structural)]
pub struct Found {
    /// Whether namespaces can be made.
    pub privileges: bool,
    pub srtla_rec: bool,
    pub srt_live_transmit: bool,
    pub ip: bool,
    pub tc: bool,
    pub ss: bool,
}

/// The first thing that a run lacks, in words.
pub open spec fn first_missing(found: Found) -> Option<Seq<char>> {
    if !found.privileges {
        Some("requires root / passwordless sudo"@)
    } else if !found.srtla_rec {
        Some("srtla_rec"@ + " not found in PATH"@)
    } else if !found.srt_live_transmit {
        Some("srt-live-transmit"@ + " not found in PATH"@)
    } else if !found.ip {
        Some("system tool '"@ + "ip"@ + "' not found"@)
    } else if !found.tc {
        Some("system tool '"@ + "tc"@ + "' not found"@)
    } else if !found.ss {
        Some("system tool '"@ + "ss"@ + "' not found"@)
    } else {
        None
    }
}

/// Whether a run can be made; the first thing that it lacks.
pub fn check_integration_deps(found: &Found) -> (r: Result<(), SkipReason>)
    ensures
        match r {
            Ok(_) => first_missing(*found) is None,
            Err(reason) => first_missing(*found) == Some(reason.message()),
        },
        r is Err && r->Err_0 is NotRoot <==> !found.privileges,
        !(r is Err && r->Err_0 is NoNetem),
{
    if !found.privileges {
        Err(SkipReason::NotRoot)
    } else if !found.srtla_rec {
        Err(SkipReason::MissingBinary("srtla_rec".to_owned()))
    } else if !found.srt_live_transmit {
        Err(SkipReason::MissingBinary("srt-live-transmit".to_owned()))
    } else if !found.ip {
        Err(SkipReason::MissingTool("ip".to_owned()))
    } else if !found.tc {
        Err(SkipReason::MissingTool("tc".to_owned()))
    } else if !found.ss {
        Err(SkipReason::MissingTool("ss".to_owned()))
    } else {
        Ok(())
    }
}

/// Whether a run with impaired links can be made: it needs netem on top.
pub fn check_impairment_deps(found: &Found, netem: bool) -> (r: Result<(), SkipReason>)
    ensures
        match r {
            Ok(_) => first_missing(*found) is None && netem,
            Err(reason) => match first_missing(*found) {
                Some(message) => reason.message() == message,
                None => !netem && reason is NoNetem,
            },
        },
{
    match check_integration_deps(found) {
        Err(reason) => Err(reason),
        Ok(()) => if netem {
            Ok(())
        } else {
            Err(SkipReason::NoNetem)
        },
    }
}

/// A name for a namespace that no other run uses, at its full length: prefix,
/// process and counter.
pub open spec fn full_ns_name(prefix: Seq<char>, pid: u32, seq: u32) -> Seq<char> {
    prefix + "_"@ + hex_digits((pid % 0xffff) as nat) + "_"@ + decimal_digits(seq as nat)
}

/// A name for a namespace that no other run uses, cut to as many bytes as a device
/// may have.
pub fn unique_ns_name(prefix: &str, pid: u32, seq: u32) -> (name: String)
    requires
        ({
            let bytes = encode_utf8(full_ns_name(prefix@, pid, seq));
            bytes.len() > MAX_NAME_LEN ==> is_char_boundary(bytes, MAX_NAME_LEN as int)
        }),
    ensures
        ({
            let full = full_ns_name(prefix@, pid, seq);
            if encode_utf8(full).len() > MAX_NAME_LEN {
                encode_utf8(name@) == encode_utf8(full).take(MAX_NAME_LEN as int)
            } else {
                name@ == full
            }
        }),
{
    let mut name: String = joined(prefix, "_");
    name.append(hex(pid % 0xffff).as_str());
    name.append("_");
    name.append(decimal(seq as u64).as_str());
    if name.as_str().as_bytes().len() > MAX_NAME_LEN {
        let (cut, _) = name.as_str().split_at(MAX_NAME_LEN);
        assert(encode_utf8(name@).subrange(0, MAX_NAME_LEN as int) =~= encode_utf8(name@).take(
            MAX_NAME_LEN as int,
        ));
        cut.to_owned()
    } else {
        name
    }
}

/// The first characters of a name, as many as a device may have. The names of
/// devices are ASCII.
pub open spec fn device_name(name: Seq<char>) -> Seq<char> {
    if name.len() > MAX_NAME_LEN {
        name.take(MAX_NAME_LEN as int)
    } else {
        name
    }
}

/// The address of one end of link `i`.
pub open spec fn link_ip(i: nat, end: Seq<char>) -> Seq<char> {
    "10.10."@ + decimal_digits(i + 1) + end
}

/// The device of one end of link `i`.
pub open spec fn link_iface(kind: Seq<char>, pid: u32, i: nat) -> Seq<char> {
    device_name(kind + hex_digits((pid % 0xffff) as nat) + "_"@ + decimal_digits(i))
}

fn iface_name(kind: &str, pid: u32, i: usize) -> (name: String)
    ensures
        name@ == link_iface(kind@, pid, i as nat),
{
    let mut name: String = joined(kind, hex(pid % 0xffff).as_str());
    name.append("_");
    name.append(decimal(i as u64).as_str());
    truncated(name.as_str(), MAX_NAME_LEN)
}

fn ip_text(i: usize, end: &str) -> (ip: String)
    requires
        i < u64::MAX,
    ensures
        ip@ == link_ip(i as nat, end@),
{
    let mut ip: String = joined("10.10.", decimal(i as u64 + 1).as_str());
    ip.append(end);
    ip
}

/// Two namespaces with a number of links between them.
pub struct SrtlaTestTopology {
    pub sender_ns: String,
    pub receiver_ns: String,
    pub sender_ips: Vec<String>,
    /// The receiver's address on the first link.
    pub receiver_ip: String,
    pub sender_ifaces: Vec<String>,
    pub receiver_ifaces: Vec<String>,
}

impl SrtlaTestTopology {
    /// Names and addresses for `num_links` links.
    pub fn new(sender_ns: String, receiver_ns: String, pid: u32, num_links: usize) -> (topo: Self)
        requires
            num_links > 0,
        ensures
            topo.sender_ns@ == sender_ns@,
            topo.receiver_ns@ == receiver_ns@,
            topo.receiver_ip@ == "10.10.1.2"@,
            topo.sender_ips@.len() == num_links,
            topo.sender_ifaces@.len() == num_links,
            topo.receiver_ifaces@.len() == num_links,
            forall|i: int|
                0 <= i < num_links ==> (#[trigger] topo.sender_ips@[i])@ == link_ip(
                    i as nat,
                    ".1"@,
                ),
            forall|i: int|
                0 <= i < num_links ==> (#[trigger] topo.sender_ifaces@[i])@ == link_iface(
                    "vs"@,
                    pid,
                    i as nat,
                ),
            forall|i: int|
                0 <= i < num_links ==> (#[trigger] topo.receiver_ifaces@[i])@ == link_iface(
                    "vr"@,
                    pid,
                    i as nat,
                ),
    {
        let mut sender_ips: Vec<String> = Vec::new();
        let mut sender_ifaces: Vec<String> = Vec::new();
        let mut receiver_ifaces: Vec<String> = Vec::new();
        let mut i: usize = 0;
        while i < num_links
            invariant
                i <= num_links,
                sender_ips@.len() == i,
                sender_ifaces@.len() == i,
                receiver_ifaces@.len() == i,
                forall|k: int|
                    0 <= k < i ==> (#[trigger] sender_ips@[k])@ == link_ip(k as nat, ".1"@),
                forall|k: int|
                    0 <= k < i ==> (#[trigger] sender_ifaces@[k])@ == link_iface(
                        "vs"@,
                        pid,
                        k as nat,
                    ),
                forall|k: int|
                    0 <= k < i ==> (#[trigger] receiver_ifaces@[k])@ == link_iface(
                        "vr"@,
                        pid,
                        k as nat,
                    ),
            decreases num_links - i,
        {
            sender_ips.push(ip_text(i, ".1"));
            sender_ifaces.push(iface_name("vs", pid, i));
            receiver_ifaces.push(iface_name("vr", pid, i));
            i += 1;
        }
        SrtlaTestTopology {
            sender_ns,
            receiver_ns,
            sender_ips,
            receiver_ip: "10.10.1.2".to_owned(),
            sender_ifaces,
            receiver_ifaces,
        }
    }

    /// The device on which link `idx` is impaired.
    pub fn impair_link(&self, idx: usize) -> (r: Result<&String, String>)
        ensures
            match r {
                Ok(iface) => idx < self.sender_ifaces@.len() && *iface
                    == self.sender_ifaces@[idx as int],
                Err(message) => idx >= self.sender_ifaces@.len() && message@ == "link index "@
                    + decimal_digits(idx as nat) + " out of range"@,
            },
    {
        if idx < self.sender_ifaces.len() {
            Ok(&self.sender_ifaces[idx])
        } else {
            let mut message: String = joined("link index ", decimal(idx as u64).as_str());
            message.append(" out of range");
            Err(message)
        }
    }

    /// The sender's addresses, one to a line.
    pub fn ip_list(&self) -> (text: String)
        ensures
            text@ == lines_of(self.sender_ips@),
    {
        let mut text: String = String::new();
        let mut i: usize = 0;
        assert(self.sender_ips@.take(0) =~= Seq::empty());
        while i < self.sender_ips.len()
            invariant
                i <= self.sender_ips@.len(),
                text@ == lines_of(self.sender_ips@.take(i as int)),
            decreases self.sender_ips@.len() - i,
        {
            assert(self.sender_ips@.take(i + 1).drop_last() =~= self.sender_ips@.take(i as int));
            text.append(self.sender_ips[i].as_str());
            text.append("\n");
            i += 1;
        }
        assert(self.sender_ips@.take(self.sender_ips@.len() as int) =~= self.sender_ips@);
        text
    }
}

/// Texts, each followed by a line break.
pub open spec fn lines_of(list: Seq<String>) -> Seq<char>
    decreases list.len(),
{
    if list.len() == 0 {
        Seq::empty()
    } else {
        lines_of(list.drop_last()) + list.last()@ + "\n"@
    }
}

/// Port of the SRT server of a run.
pub const SRT_SERVER_PORT: u16 = 4001;

/// Port on which the receiver takes links.
pub const SRTLA_REC_PORT: u16 = 5000;

/// Port on which the sender takes the client's packets.
pub const SRTLA_SEND_SRT_PORT: u16 = 5555;

/// A variable of the environment, as it is set on a command line.
pub open spec fn setting(var: (&str, &str)) -> Seq<char> {
    var.0@ + "="@ + var.1@
}

/// The words that run a program in a namespace.
pub open spec fn in_namespace(
    ns: Seq<char>,
    binary: Seq<char>,
    args: Seq<Seq<char>>,
    env: Seq<(&str, &str)>,
) -> Seq<Seq<char>> {
    seq!["ip"@, "netns"@, "exec"@, ns] + (if env.len() > 0 {
        seq!["env"@] + env.map_values(|var: (&str, &str)| setting(var))
    } else {
        Seq::empty()
    }) + seq![binary] + args
}

/// The words, behind `sudo`, that run a program in a namespace.
pub fn namespace_command(
    ns: &str,
    binary: &str,
    args: &[String],
    env: &[(&str, &str)],
) -> (words: Vec<String>)
    ensures
        texts(words@) == in_namespace(ns@, binary@, texts(args@), env@),
{
    let mut words: Vec<String> = Vec::new();
    words.push("ip".to_owned());
    words.push("netns".to_owned());
    words.push("exec".to_owned());
    words.push(ns.to_owned());
    let ghost head = seq!["ip"@, "netns"@, "exec"@, ns@];
    assert(texts(words@) =~= head);
    let ghost set = env@.map_values(|var: (&str, &str)| setting(var));
    if env.len() > 0 {
        words.push("env".to_owned());
        let mut i: usize = 0;
        assert(texts(words@) =~= head + seq!["env"@] + set.take(0));
        while i < env.len()
            invariant
                i <= env@.len(),
                set == env@.map_values(|var: (&str, &str)| setting(var)),
                texts(words@) == head + seq!["env"@] + set.take(i as int),
            decreases env@.len() - i,
        {
            let mut word: String = joined(env[i].0, "=");
            word.append(env[i].1);
            let ghost before = texts(words@);
            words.push(word);
            assert(texts(words@) =~= before.push(word@));
            assert(set.take(i + 1) =~= set.take(i as int).push(word@));
            assert(texts(words@) =~= head + seq!["env"@] + set.take(i + 1));
            i += 1;
        }
        assert(set.take(set.len() as int) =~= set);
    }
    let ghost front = head + (if env@.len() > 0 {
        seq!["env"@] + set
    } else {
        Seq::empty()
    });
    assert(texts(words@) =~= front);
    words.push(binary.to_owned());
    assert(texts(words@) =~= front + seq![binary@]);
    let mut i: usize = 0;
    while i < args.len()
        invariant
            i <= args@.len(),
            texts(words@) == front + seq![binary@] + texts(args@).take(i as int),
        decreases args@.len() - i,
    {
        let ghost before = texts(words@);
        words.push(args[i].as_str().to_owned());
        assert(texts(words@) =~= before.push(args@[i as int]@));
        assert(texts(args@).take(i + 1) =~= texts(args@).take(i as int).push(args@[i as int]@));
        assert(texts(words@) =~= front + seq![binary@] + texts(args@).take(i + 1));
        i += 1;
    }
    assert(texts(args@).take(args@.len() as int) =~= texts(args@));
    words
}

/// The command lines of the programs of a run, in the order in which they start.
pub struct StackPlan {
    pub srt_server: Vec<String>,
    pub srtla_rec: Vec<String>,
    pub srtla_send: Vec<String>,
}

/// Plans the programs of a run: an SRT server that throws away what it gets, the
/// receiver in front of it, and the sender, which gets `extra_args` on top.
pub fn plan_stack(
    topo: &SrtlaTestTopology,
    sender_binary: &str,
    ip_list_path: &str,
    extra_args: &[String],
) -> (plan: StackPlan)
    ensures
        texts(plan.srt_server@) == in_namespace(
            topo.receiver_ns@,
            "srt-live-transmit"@,
            seq![
                "srt://:"@ + decimal_digits(SRT_SERVER_PORT as nat) + "?mode=listener"@,
                "udp://127.0.0.1:9999"@,
            ],
            Seq::empty(),
        ),
        texts(plan.srtla_rec@) == in_namespace(
            topo.receiver_ns@,
            "srtla_rec"@,
            seq![
                "--srtla_port"@,
                decimal_digits(SRTLA_REC_PORT as nat),
                "--srt_hostname"@,
                "127.0.0.1"@,
                "--srt_port"@,
                decimal_digits(SRT_SERVER_PORT as nat),
            ],
            Seq::empty(),
        ),
        texts(plan.srtla_send@) == in_namespace(
            topo.sender_ns@,
            sender_binary@,
            seq![
                decimal_digits(SRTLA_SEND_SRT_PORT as nat),
                topo.receiver_ip@,
                decimal_digits(SRTLA_REC_PORT as nat),
                ip_list_path@,
            ] + texts(extra_args@),
            seq![("RUST_LOG", "debug")],
        ),
{
    let mut uri: String = joined("srt://:", decimal(SRT_SERVER_PORT as u64).as_str());
    uri.append("?mode=listener");
    let mut args: Vec<String> = Vec::new();
    args.push(uri);
    args.push("udp://127.0.0.1:9999".to_owned());
    assert(texts(args@) =~= seq![
        "srt://:"@ + decimal_digits(SRT_SERVER_PORT as nat) + "?mode=listener"@,
        "udp://127.0.0.1:9999"@,
    ]);
    let no_env: Vec<(&str, &str)> = Vec::new();
    assert(no_env@ =~= Seq::empty());
    let srt_server: Vec<String> = namespace_command(
        topo.receiver_ns.as_str(),
        "srt-live-transmit",
        args.as_slice(),
        no_env.as_slice(),
    );
    let mut args: Vec<String> = Vec::new();
    args.push("--srtla_port".to_owned());
    args.push(decimal(SRTLA_REC_PORT as u64));
    args.push("--srt_hostname".to_owned());
    args.push("127.0.0.1".to_owned());
    args.push("--srt_port".to_owned());
    args.push(decimal(SRT_SERVER_PORT as u64));
    assert(texts(args@) =~= seq![
        "--srtla_port"@,
        decimal_digits(SRTLA_REC_PORT as nat),
        "--srt_hostname"@,
        "127.0.0.1"@,
        "--srt_port"@,
        decimal_digits(SRT_SERVER_PORT as nat),
    ]);
    let srtla_rec: Vec<String> = namespace_command(
        topo.receiver_ns.as_str(),
        "srtla_rec",
        args.as_slice(),
        no_env.as_slice(),
    );
    let mut args: Vec<String> = Vec::new();
    args.push(decimal(SRTLA_SEND_SRT_PORT as u64));
    args.push(topo.receiver_ip.as_str().to_owned());
    args.push(decimal(SRTLA_REC_PORT as u64));
    args.push(ip_list_path.to_owned());
    let ghost own = seq![
        decimal_digits(SRTLA_SEND_SRT_PORT as nat),
        topo.receiver_ip@,
        decimal_digits(SRTLA_REC_PORT as nat),
        ip_list_path@,
    ];
    let mut i: usize = 0;
    assert(texts(args@) =~= own + texts(extra_args@).take(0));
    while i < extra_args.len()
        invariant
            i <= extra_args@.len(),
            texts(args@) == own + texts(extra_args@).take(i as int),
        decreases extra_args@.len() - i,
    {
        let ghost before = texts(args@);
        args.push(extra_args[i].as_str().to_owned());
        assert(texts(args@) =~= before.push(extra_args@[i as int]@));
        assert(texts(args@) =~= own + texts(extra_args@).take(i + 1));
        i += 1;
    }
    assert(texts(extra_args@).take(extra_args@.len() as int) =~= texts(extra_args@));
    let mut env: Vec<(&str, &str)> = Vec::new();
    env.push(("RUST_LOG", "debug"));
    assert(env@ =~= seq![("RUST_LOG", "debug")]);
    let srtla_send: Vec<String> = namespace_command(
        topo.sender_ns.as_str(),
        sender_binary,
        args.as_slice(),
        env.as_slice(),
    );
    StackPlan { srt_server, srtla_rec, srtla_send }
}

/// Whether `part` occurs in `whole` at `at`.
pub open spec fn occurs_at(whole: Seq<u8>, part: Seq<u8>, at: int) -> bool {
    0 <= at && at + part.len() <= whole.len() && whole.subrange(at, at + part.len()) == part
}

fn starts_at(whole: &[u8], part: &[u8], at: usize) -> (r: bool)
    requires
        at + part@.len() <= whole@.len(),
    ensures
        r == occurs_at(whole@, part@, at as int),
{
    let mut i: usize = 0;
    let n: usize = whole.len();
    while i < part.len()
        invariant
            i <= part@.len(),
            at + part@.len() <= whole@.len() == n,
            forall|j: int| 0 <= j < i ==> whole@[at + j] == #[trigger] part@[j],
        decreases part@.len() - i,
    {
        if whole[at + i] != part[i] {
            assert(whole@.subrange(at as int, at + part@.len())[i as int] != part@[i as int]);
            return false;
        }
        i += 1;
    }
    assert(whole@.subrange(at as int, at + part@.len()) =~= part@);
    true
}

/// Whether a listing of sockets holds a port.
pub fn lists_port(listing: &str, port: u16) -> (r: bool)
    ensures
        r == exists|at: int| #[trigger]
            occurs_at(
                encode_utf8(listing@),
                encode_utf8(":"@ + decimal_digits(port as nat)),
                at,
            ),
{
    let wanted: String = joined(":", decimal(port as u64).as_str());
    let whole: &[u8] = listing.as_bytes();
    let part: &[u8] = wanted.as_str().as_bytes();
    if part.len() > whole.len() {
        return false;
    }
    let last: usize = whole.len() - part.len();
    let mut at: usize = 0;
    while !starts_at(whole, part, at)
        invariant
            whole@ == encode_utf8(listing@),
            part@ == encode_utf8(":"@ + decimal_digits(port as nat)),
            at <= last,
            last + part@.len() == whole@.len(),
            forall|k: int| 0 <= k < at ==> !#[trigger] occurs_at(whole@, part@, k),
        decreases last - at,
    {
        if at == last {
            return false;
        }
        at += 1;
    }
    true
}

/// What the processes of a run wrote.
pub struct StackOutput {
    pub srt_server_stdout: Vec<String>,
    pub srt_server_stderr: Vec<String>,
    pub srtla_rec_stdout: Vec<String>,
    pub srtla_rec_stderr: Vec<String>,
    pub srtla_send_stdout: Vec<String>,
    pub srtla_send_stderr: Vec<String>,
}

/// A script for the sender's namespace, and what to say where it fails.
pub struct Injection {
    pub script: String,
    pub context: String,
}

/// The script that sends `count` datagrams at once.
pub fn inject_udp_packets(target_ip: &str, port: u16, count: usize) -> (plan: Injection)
    ensures
        plan.script@
            == "import socket; s=socket.socket(socket.AF_INET,socket.SOCK_DGRAM); [s.sendto(b'\\x00'*188,('"@
            + target_ip@ + "',"@ + decimal_digits(port as nat) + ")) for _ in range("@
            + decimal_digits(count as nat) + ")]; s.close()"@,
        plan.context@ == "inject "@ + decimal_digits(count as nat) + " UDP packets to "@
            + target_ip@ + ":"@ + decimal_digits(port as nat),
{
    let mut script: String = joined(
        "import socket; s=socket.socket(socket.AF_INET,socket.SOCK_DGRAM); [s.sendto(b'\\x00'*188,('",
        target_ip,
    );
    script.append("',");
    script.append(decimal(port as u64).as_str());
    script.append(")) for _ in range(");
    script.append(decimal(count as u64).as_str());
    script.append(")]; s.close()");
    let mut context: String = joined("inject ", decimal(count as u64).as_str());
    context.append(" UDP packets to ");
    context.append(target_ip);
    context.append(":");
    context.append(decimal(port as u64).as_str());
    Injection { script, context }
}

/// The script that sends datagrams at a steady rate for `seconds`.
pub fn inject_udp_stream(
    target_ip: &str,
    port: u16,
    packets_per_sec: u32,
    seconds: &str,
) -> (r: Result<Injection, String>)
    ensures
        match r {
            Ok(plan) => {
                &&& packets_per_sec > 0
                &&& plan.script@
                    == "import socket,time\ns=socket.socket(socket.AF_INET,socket.SOCK_DGRAM)\nd=b'\\x00'*188\nstart=time.time(); i=0\nwhile time.time()-start<"@
                    + seconds@ + ":\n  s.sendto(d,('"@ + target_ip@ + "',"@ + decimal_digits(
                    port as nat,
                ) + "))\n  i+=1\n  time.sleep("@ + decimal_digits(
                    (1_000_000int / packets_per_sec as int) as nat,
                ) + "/1e6)\ns.close()\nprint(f'sent {i} packets')"@
                &&& plan.context@ == "inject UDP stream"@
            },
            Err(message) => packets_per_sec == 0 && message@ == "packets_per_sec must be > 0"@,
        },
{
    if packets_per_sec == 0 {
        return Err("packets_per_sec must be > 0".to_owned());
    }
    let interval_us: u32 = 1_000_000 / packets_per_sec;
    let mut script: String = joined(
        "import socket,time\ns=socket.socket(socket.AF_INET,socket.SOCK_DGRAM)\nd=b'\\x00'*188\nstart=time.time(); i=0\nwhile time.time()-start<",
        seconds,
    );
    script.append(":\n  s.sendto(d,('");
    script.append(target_ip);
    script.append("',");
    script.append(decimal(port as u64).as_str());
    script.append("))\n  i+=1\n  time.sleep(");
    script.append(decimal(interval_us as u64).as_str());
    script.append("/1e6)\ns.close()\nprint(f'sent {i} packets')");
    Ok(Injection { script, context: "inject UDP stream".to_owned() })
}

/// A run lacks nothing exactly where everything was found; what it lacks first is what
/// comes first in the order in which the programs are looked for.
pub proof fn run_lacks_what_was_not_found(found: Found)
    ensures
        first_missing(found) is None <==> found.privileges && found.srtla_rec
            && found.srt_live_transmit && found.ip && found.tc && found.ss,
        !found.privileges ==> first_missing(found) == Some("requires root / passwordless sudo"@),
        found.privileges && !found.srtla_rec ==> first_missing(found) == Some(
            "srtla_rec"@ + " not found in PATH"@,
        ),
        found.privileges && found.srtla_rec && !found.srt_live_transmit ==> first_missing(found)
            == Some("srt-live-transmit"@ + " not found in PATH"@),
{
}

/// The name of a device has 15 characters at most, and is the beginning of the name asked
/// for, all of it where it fits.
pub proof fn device_names_fit(name: Seq<char>)
    ensures
        device_name(name).len() <= 15,
        name.len() <= 15 ==> device_name(name) == name,
        name.len() > 15 ==> device_name(name).len() == 15,
        forall|i: int|
            0 <= i < device_name(name).len() ==> #[trigger] device_name(name)[i] == name[i],
{
}

/// A program in a namespace: its name comes behind the namespace and the variables that are
/// set for it, if any, and its arguments come last, in order.
pub proof fn program_comes_behind_its_variables(
    ns: Seq<char>,
    binary: Seq<char>,
    args: Seq<Seq<char>>,
    env: Seq<(&str, &str)>,
    i: int,
)
    ensures
        ({
            let words = in_namespace(ns, binary, args, env);
            let at = if env.len() == 0 {
                4
            } else {
                5 + env.len()
            };
            &&& words.len() == at + 1 + args.len()
            &&& words[3] == ns
            &&& words[at as int] == binary
            &&& 0 <= i < args.len() ==> words[at + 1 + i] == args[i]
            &&& 0 <= i < env.len() ==> words[5 + i] == env[i].0@ + "="@ + env[i].1@
            &&& env.len() > 0 ==> words[4] == "env"@
        }),
{
}

/// What is found in a text is there, byte for byte; and what was put in is found.
pub proof fn parts_occur_where_they_were_put(
    before: Seq<u8>,
    part: Seq<u8>,
    after: Seq<u8>,
    whole: Seq<u8>,
    at: int,
    i: int,
)
    ensures
        occurs_at(before + part + after, part, before.len() as int),
        occurs_at(whole, part, at) && 0 <= i < part.len() ==> 0 <= at + i < whole.len() && whole[at
            + i] == part[i],
{
    assert((before + part + after).subrange(before.len() as int, (before.len() + part.len()) as int)
        =~= part);
    if occurs_at(whole, part, at) && 0 <= i < part.len() {
        assert(whole.subrange(at, at + part.len())[i] == part[i]);
    }
}

/// The list of addresses that a run writes is read back as those addresses, as long as none
/// of them is empty, holds a line break, or begins or ends with white space.
pub proof fn address_list_is_read_back(list: Seq<String>)
    requires
        forall|i: int|
            0 <= i < list.len() ==> {
                &&& (#[trigger] list[i])@.len() > 0
                &&& !blank(list[i]@[0])
                &&& !blank(list[i]@.last())
                &&& forall|k: int| 0 <= k < list[i]@.len() ==> list[i]@[k] != '\n'
            },
    ensures
        listed(lines_of(list)) == texts(list),
    decreases list.len(),
{
    let none = Seq::<char>::empty();
    if list.len() == 0 {
        line_lists_its_address(none, seq!['x'], none, none);
        assert(texts(list) =~= Seq::empty());
    } else {
        let rest = list.skip(1);
        let first = list[0]@;
        assert forall|i: int| 0 <= i < rest.len() implies {
            &&& (#[trigger] rest[i])@.len() > 0
            &&& !blank(rest[i]@[0])
            &&& !blank(rest[i]@.last())
            &&& forall|k: int| 0 <= k < rest[i]@.len() ==> rest[i]@[k] != '\n'
        } by {
            assert(rest[i] == list[i + 1]);
        }
        address_list_is_read_back(rest);
        lines_begin_with_the_first(list);
        line_lists_its_address(none, first, none, lines_of(rest));
        assert(none + first + none + seq!['\n'] + lines_of(rest) =~= first + seq!['\n']
            + lines_of(rest));
        assert(texts(list) =~= seq![first] + texts(rest));
    }
}

proof fn lines_begin_with_the_first(list: Seq<String>)
    requires
        list.len() > 0,
    ensures
        lines_of(list) == list[0]@ + seq!['\n'] + lines_of(list.skip(1)),
    decreases list.len(),
{
    reveal_strlit("\n");
    assert("\n"@ =~= seq!['\n']);
    let front = list.drop_last();
    if list.len() == 1 {
        assert(lines_of(front) =~= Seq::empty());
        assert(lines_of(list.skip(1)) =~= Seq::empty());
        assert(lines_of(list) =~= list[0]@ + seq!['\n'] + lines_of(list.skip(1)));
    } else {
        lines_begin_with_the_first(front);
        assert(list.skip(1).drop_last() =~= front.skip(1));
        assert(list.skip(1).last() == list.last());
        assert(lines_of(list) =~= list[0]@ + seq!['\n'] + lines_of(list.skip(1)));
    }
}

} // verus!
