//! The XML (v6) command documents: each command is one XML document naming
//! the command and its arguments, NUL-terminated, built from typed argument
//! tables.
use vstd::prelude::*;

use crate::ascii::{ascii_of, push_str_bytes};

verus! {

/// The capability string announced to the agent at setup.
pub const HOST_CMDS: &'static str =
    "CMD:DOWNLOAD-FILE^1@CMD:FILE-SYS-OPERATION^1@CMD:PROGRESS-REPORT^1@CMD:UPLOAD-FILE^1@";

/// Lifetime marker of an XML command exchange.
#[derive(Debug, Clone, Copy, PartialEq, Eq, Structural)]
pub enum XmlCmdLifetime {
    /// The device opens a command.
    CmdStart,
    /// The device closes a command.
    CmdEnd,
}

/// A pseudo-filesystem operation the device may ask the host to perform.
#[derive(Debug, Clone, Copy, PartialEq, Eq, Structural)]
pub enum FileSystemOp {
    MkDir,
    Exists,
    FileSize(usize),
    RemoveAll,
    Remove,
}

impl FileSystemOp {
    /// The canned answer the host gives for this operation.
    pub fn default(&self) -> (r: Vec<u8>)
        ensures
            self is MkDir ==> r@ == ascii_of("MKDIR"@).push(0),
            self is Exists ==> r@ == ascii_of("NOT-EXISTS"@).push(0),
            self is RemoveAll ==> r@ == ascii_of("REMOVE-ALL"@).push(0),
            self is Remove ==> r@ == ascii_of("REMOVE"@).push(0),
            self is FileSize ==> r@ == spec_hex_upper(self->FileSize_0 as nat),
    {
        match self {
            FileSystemOp::MkDir => {
                proof {
                    reveal_strlit("MKDIR");
                }
                let mut v = crate::ascii::str_bytes("MKDIR");
                v.push(0);
                v
            },
            FileSystemOp::Exists => {
                proof {
                    reveal_strlit("NOT-EXISTS");
                }
                let mut v = crate::ascii::str_bytes("NOT-EXISTS");
                v.push(0);
                v
            },
            FileSystemOp::FileSize(size) => hex_upper(*size as u64),
            FileSystemOp::RemoveAll => {
                proof {
                    reveal_strlit("REMOVE-ALL");
                }
                let mut v = crate::ascii::str_bytes("REMOVE-ALL");
                v.push(0);
                v
            },
            FileSystemOp::Remove => {
                proof {
                    reveal_strlit("REMOVE");
                }
                let mut v = crate::ascii::str_bytes("REMOVE");
                v.push(0);
                v
            },
        }
    }
}

/// The ASCII byte of one lowercase hexadecimal digit.
pub open spec fn spec_hex_digit_lower(d: int) -> u8
    recommends
        0 <= d < 16,
{
    if d < 10 {
        (0x30 + d) as u8
    } else {
        (0x57 + d) as u8
    }
}

/// The ASCII byte of one uppercase hexadecimal digit.
pub open spec fn spec_hex_digit_upper(d: int) -> u8
    recommends
        0 <= d < 16,
{
    if d < 10 {
        (0x30 + d) as u8
    } else {
        (0x37 + d) as u8
    }
}

/// The lowercase hexadecimal digits of `n`, most significant first.
pub open spec fn spec_hex_lower(n: nat) -> Seq<u8>
    decreases n,
{
    if n < 16 {
        seq![spec_hex_digit_lower(n as int)]
    } else {
        spec_hex_lower(n / 16) + seq![spec_hex_digit_lower((n % 16) as int)]
    }
}

/// The uppercase hexadecimal digits of `n`, most significant first.
pub open spec fn spec_hex_upper(n: nat) -> Seq<u8>
    decreases n,
{
    if n < 16 {
        seq![spec_hex_digit_upper(n as int)]
    } else {
        spec_hex_upper(n / 16) + seq![spec_hex_digit_upper((n % 16) as int)]
    }
}

/// Writes `x` in lowercase hexadecimal.
pub fn hex_lower(x: u64) -> (r: Vec<u8>)
    ensures
        r@ == spec_hex_lower(x as nat),
    decreases x,
{
    if x < 16 {
        let d = x as u8;
        let b: u8 = if d < 10 {
            0x30 + d
        } else {
            0x57 + d
        };
        let mut out: Vec<u8> = Vec::new();
        out.push(b);
        assert(out@ =~= spec_hex_lower(x as nat));
        out
    } else {
        let mut out = hex_lower(x / 16);
        let d = (x % 16) as u8;
        let b: u8 = if d < 10 {
            0x30 + d
        } else {
            0x57 + d
        };
        out.push(b);
        assert(out@ =~= spec_hex_lower(x as nat));
        out
    }
}

/// Writes `x` in uppercase hexadecimal.
pub fn hex_upper(x: u64) -> (r: Vec<u8>)
    ensures
        r@ == spec_hex_upper(x as nat),
    decreases x,
{
    if x < 16 {
        let d = x as u8;
        let b: u8 = if d < 10 {
            0x30 + d
        } else {
            0x37 + d
        };
        let mut out: Vec<u8> = Vec::new();
        out.push(b);
        assert(out@ =~= spec_hex_upper(x as nat));
        out
    } else {
        let mut out = hex_upper(x / 16);
        let d = (x % 16) as u8;
        let b: u8 = if d < 10 {
            0x30 + d
        } else {
            0x37 + d
        };
        out.push(b);
        assert(out@ =~= spec_hex_upper(x as nat));
        out
    }
}

/// One argument element of a command document.
pub struct XmlArg {
    /// Element tag.
    pub tag: &'static str,
    /// Element content, already rendered.
    pub content: Vec<u8>,
}

/// One section of a command document, grouping argument elements.
pub struct XmlSection {
    /// Section tag; the plain argument section is tagged `arg`.
    pub tag: &'static str,
    /// The elements of the section, in emission order.
    pub args: Vec<XmlArg>,
}

/// A section as tag characters and (tag, content) pairs.
pub open spec fn spec_abs_args(args: Seq<XmlArg>) -> Seq<(Seq<char>, Seq<u8>)> {
    args.map_values(|a: XmlArg| (a.tag@, a.content@))
}

/// The abstract shape of a section list.
pub open spec fn spec_abs_sections(ss: Seq<XmlSection>) -> Seq<(Seq<char>, Seq<(Seq<char>, Seq<u8>)>)> {
    ss.map_values(|s: XmlSection| (s.tag@, spec_abs_args(s.args@)))
}

/// The bytes of one element: the tag bracketed around the content.
pub open spec fn spec_elem(tag: Seq<char>, content: Seq<u8>) -> Seq<u8> {
    ascii_of("<"@ + tag + ">"@) + content + ascii_of("</"@ + tag + ">"@)
}

/// The bytes of a list of elements.
pub open spec fn spec_elems(args: Seq<(Seq<char>, Seq<u8>)>) -> Seq<u8>
    decreases args.len(),
{
    if args.len() == 0 {
        Seq::empty()
    } else {
        spec_elems(args.drop_last()) + spec_elem(args.last().0, args.last().1)
    }
}

/// The bytes of a list of sections, each bracketing its elements.
pub open spec fn spec_sections(ss: Seq<(Seq<char>, Seq<(Seq<char>, Seq<u8>)>)>) -> Seq<u8>
    decreases ss.len(),
{
    if ss.len() == 0 {
        Seq::empty()
    } else {
        spec_sections(ss.drop_last()) + spec_elem(ss.last().0, spec_elems(ss.last().1))
    }
}

/// A whole command document: prologue, version, command name, sections,
/// closing tag and the terminating NUL.
pub open spec fn spec_xml_doc(
    version: Seq<char>,
    name: Seq<char>,
    ss: Seq<(Seq<char>, Seq<(Seq<char>, Seq<u8>)>)>,
) -> Seq<u8> {
    ascii_of("<?xml version=\"1.0\" encoding=\"utf-8\"?><da><version>"@) + ascii_of(version)
        + ascii_of("</version><command>CMD:"@) + ascii_of(name) + ascii_of("</command>"@)
        + spec_sections(ss) + ascii_of("</da>"@) + seq![0u8]
}

/// Appends one element.
fn push_elem(out: &mut Vec<u8>, tag: &str, content: &[u8])
    requires
        tag.is_ascii(),
    ensures
        final(out)@ == old(out)@ + spec_elem(tag@, content@),
{
    proof {
        reveal_strlit("<");
        reveal_strlit(">");
        reveal_strlit("</");
    }
    push_str_bytes(out, "<");
    push_str_bytes(out, tag);
    push_str_bytes(out, ">");
    let mut i: usize = 0;
    let ghost mid = out@;
    while i < content.len()
        invariant
            i <= content@.len(),
            out@ == mid + content@.take(i as int),
        decreases content@.len() - i,
    {
        out.push(content[i]);
        assert(out@ =~= mid + content@.take(i + 1));
        i = i + 1;
    }
    push_str_bytes(out, "</");
    push_str_bytes(out, tag);
    push_str_bytes(out, ">");
    proof {
        assert(content@.take(content@.len() as int) =~= content@);
        assert(ascii_of("<"@) + ascii_of(tag@) + ascii_of(">"@) =~= ascii_of("<"@ + tag@ + ">"@));
        assert(ascii_of("</"@) + ascii_of(tag@) + ascii_of(">"@) =~= ascii_of("</"@ + tag@ + ">"@));
        assert(final(out)@ =~= old(out)@ + spec_elem(tag@, content@));
    }
}

/// A command of the XML dialect, rendered as one document.
pub trait XmlCommand {
    /// The command's fields are representable: its strings are ASCII.
    spec fn spec_wf(&self) -> bool;

    /// The document this command serializes to.
    spec fn spec_xml(&self) -> Seq<u8>;

    /// Serializes the command.
    fn to_xml(&self) -> (r: Vec<u8>)
        requires
            self.spec_wf(),
        ensures
            r@ == self.spec_xml(),
    ;
}

/// Builds a document from its version, name and grouped arguments.
#[verifier::loop_isolation(false)]
#[verifier::rlimit(100)]
pub fn create_cmd(version: &str, name: &str, sections: &Vec<XmlSection>) -> (r: Vec<u8>)
    requires
        version.is_ascii(),
        name.is_ascii(),
        forall|i: int|
            0 <= i < sections@.len() ==> (#[trigger] sections@[i]).tag.is_ascii() && forall|j: int|
                0 <= j < sections@[i].args@.len() ==> (#[trigger] sections@[i].args@[j]).tag.is_ascii(),
    ensures
        r@ == spec_xml_doc(version@, name@, spec_abs_sections(sections@)),
{
    proof {
        reveal_strlit("<?xml version=\"1.0\" encoding=\"utf-8\"?><da><version>");
        reveal_strlit("</version><command>CMD:");
        reveal_strlit("</command>");
        reveal_strlit("</da>");
    }
    let mut out: Vec<u8> = Vec::new();
    push_str_bytes(&mut out, "<?xml version=\"1.0\" encoding=\"utf-8\"?><da><version>");
    push_str_bytes(&mut out, version);
    push_str_bytes(&mut out, "</version><command>CMD:");
    push_str_bytes(&mut out, name);
    push_str_bytes(&mut out, "</command>");
    let ghost head = out@;
    let mut si: usize = 0;
    while si < sections.len()
        invariant
            si <= sections@.len(),
            out@ == head + spec_sections(spec_abs_sections(sections@.take(si as int))),
        decreases sections@.len() - si,
    {
        let section: &XmlSection = &sections[si];
        let mut body: Vec<u8> = Vec::new();
        let mut ai: usize = 0;
        while ai < section.args.len()
            invariant
                ai <= section.args@.len(),
                section == &sections@[si as int],
                body@ == spec_elems(spec_abs_args(section.args@.take(ai as int))),
            decreases section.args@.len() - ai,
        {
            let arg: &XmlArg = &section.args[ai];
            push_elem(&mut body, arg.tag, arg.content.as_slice());
            proof {
                assert(spec_abs_args(section.args@.take(ai + 1)).drop_last() =~= spec_abs_args(
                    section.args@.take(ai as int),
                ));
                assert(spec_abs_args(section.args@.take(ai + 1)).last() == (
                    arg.tag@,
                    arg.content@,
                ));
            }
            ai = ai + 1;
        }
        proof {
            assert(section.args@.take(section.args@.len() as int) =~= section.args@);
        }
        push_elem(&mut out, section.tag, body.as_slice());
        proof {
            assert(spec_abs_sections(sections@.take(si + 1)).drop_last() =~= spec_abs_sections(
                sections@.take(si as int),
            ));
            assert(spec_abs_sections(sections@.take(si + 1)).last() == (
                section.tag@,
                spec_abs_args(section.args@),
            ));
        }
        si = si + 1;
    }
    proof {
        assert(sections@.take(sections@.len() as int) =~= sections@);
    }
    push_str_bytes(&mut out, "</da>");
    out.push(0);
    proof {
        assert(out@ =~= spec_xml_doc(version@, name@, spec_abs_sections(sections@)));
    }
    out
}

/// Jump into an uploaded stage: both addresses and the in-memory source.
pub struct BootTo {
    pub at_addr: u64,
    pub jmp_addr: u64,
    pub host_offset: u64,
    pub length: u64,
}

impl XmlCommand for BootTo {
    open spec fn spec_wf(&self) -> bool {
        true
    }

    open spec fn spec_xml(&self) -> Seq<u8> {
        spec_xml_doc("1.0"@, "BOOT-TO"@, seq![("arg"@, seq![("at_address"@, ascii_of("0x"@) + spec_hex_lower(self.at_addr as nat)), ("jmp_address"@, ascii_of("0x"@) + spec_hex_lower(self.jmp_addr as nat)), ("source_file"@, ascii_of("MEM://0x"@) + spec_hex_lower(self.host_offset as nat) + ascii_of(":0x"@) + spec_hex_lower(self.length as nat))])])
    }

    fn to_xml(&self) -> (r: Vec<u8>) {
        proof {
            reveal_strlit("0x");
            reveal_strlit("1.0");
            reveal_strlit(":0x");
            reveal_strlit("BOOT-TO");
            reveal_strlit("MEM://0x");
            reveal_strlit("arg");
            reveal_strlit("at_address");
            reveal_strlit("jmp_address");
            reveal_strlit("source_file");
        }
        let mut args: Vec<XmlArg> = Vec::new();
        args.push(XmlArg { tag: "at_address", content: { let mut c = crate::ascii::str_bytes("0x"); let h = hex_lower(self.at_addr as u64); let mut q: usize = 0; while q < h.len() invariant q <= h@.len(), c@ == ascii_of("0x"@) + h@.take(q as int), decreases h@.len() - q, { c.push(h[q]); assert(c@ =~= ascii_of("0x"@) + h@.take(q + 1)); q = q + 1; } assert(c@ =~= ascii_of("0x"@) + h@); c } });
        args.push(XmlArg { tag: "jmp_address", content: { let mut c = crate::ascii::str_bytes("0x"); let h = hex_lower(self.jmp_addr as u64); let mut q: usize = 0; while q < h.len() invariant q <= h@.len(), c@ == ascii_of("0x"@) + h@.take(q as int), decreases h@.len() - q, { c.push(h[q]); assert(c@ =~= ascii_of("0x"@) + h@.take(q + 1)); q = q + 1; } assert(c@ =~= ascii_of("0x"@) + h@); c } });
        args.push(XmlArg { tag: "source_file", content: { let mut c = crate::ascii::str_bytes("MEM://0x"); let h1 = hex_lower(self.host_offset as u64); let mut q1: usize = 0; while q1 < h1.len() invariant q1 <= h1@.len(), c@ == ascii_of("MEM://0x"@) + h1@.take(q1 as int), decreases h1@.len() - q1, { c.push(h1[q1]); assert(c@ =~= ascii_of("MEM://0x"@) + h1@.take(q1 + 1)); q1 = q1 + 1; } assert(c@ =~= ascii_of("MEM://0x"@) + h1@); crate::ascii::push_str_bytes(&mut c, ":0x"); let ghost mid = c@; let h2 = hex_lower(self.length as u64); let mut q2: usize = 0; while q2 < h2.len() invariant q2 <= h2@.len(), c@ == mid + h2@.take(q2 as int), decreases h2@.len() - q2, { c.push(h2[q2]); assert(c@ =~= mid + h2@.take(q2 + 1)); q2 = q2 + 1; } assert(c@ =~= ascii_of("MEM://0x"@) + spec_hex_lower(self.host_offset as nat) + ascii_of(":0x"@) + spec_hex_lower(self.length as nat)); c } });
        let mut sections: Vec<XmlSection> = Vec::new();
        sections.push(XmlSection { tag: "arg", args });
        let r = create_cmd("1.0", "BOOT-TO", &sections);
        proof {
            assert(spec_abs_sections(sections@) =~~= seq![("arg"@, seq![("at_address"@, ascii_of("0x"@) + spec_hex_lower(self.at_addr as nat)), ("jmp_address"@, ascii_of("0x"@) + spec_hex_lower(self.jmp_addr as nat)), ("source_file"@, ascii_of("MEM://0x"@) + spec_hex_lower(self.host_offset as nat) + ascii_of(":0x"@) + spec_hex_lower(self.length as nat))])]);
        }
        r
    }
}

/// The agent's runtime switches; the DRAM-init flag travels in its own advanced section.
pub struct SetRuntimeParameter {
    pub checksum_level: String,
    pub battery_exist: String,
    pub da_log_level: String,
    pub log_channel: String,
    pub system_os: String,
    pub init_dram: String,
}

impl XmlCommand for SetRuntimeParameter {
    open spec fn spec_wf(&self) -> bool {
        self.checksum_level.is_ascii() && self.battery_exist.is_ascii() && self.da_log_level.is_ascii() && self.log_channel.is_ascii() && self.system_os.is_ascii() && self.init_dram.is_ascii()
    }

    open spec fn spec_xml(&self) -> Seq<u8> {
        spec_xml_doc("1.1"@, "SET-RUNTIME-PARAMETER"@, seq![("arg"@, seq![("checksum_level"@, ascii_of(self.checksum_level@)), ("battery_exist"@, ascii_of(self.battery_exist@)), ("da_log_level"@, ascii_of(self.da_log_level@)), ("log_channel"@, ascii_of(self.log_channel@)), ("system_os"@, ascii_of(self.system_os@))]), ("adv"@, seq![("initialize_dram"@, ascii_of(self.init_dram@))])])
    }

    fn to_xml(&self) -> (r: Vec<u8>) {
        proof {
            reveal_strlit("checksum_level");
            reveal_strlit("battery_exist");
            reveal_strlit("da_log_level");
            reveal_strlit("log_channel");
            reveal_strlit("system_os");
            reveal_strlit("initialize_dram");
            reveal_strlit("arg");
            reveal_strlit("adv");
            reveal_strlit("1.1");
            reveal_strlit("SET-RUNTIME-PARAMETER");
        }
        let mut args: Vec<XmlArg> = Vec::new();
        args.push(XmlArg { tag: "checksum_level", content: crate::ascii::str_bytes(self.checksum_level.as_str()) });
        args.push(XmlArg { tag: "battery_exist", content: crate::ascii::str_bytes(self.battery_exist.as_str()) });
        args.push(XmlArg { tag: "da_log_level", content: crate::ascii::str_bytes(self.da_log_level.as_str()) });
        args.push(XmlArg { tag: "log_channel", content: crate::ascii::str_bytes(self.log_channel.as_str()) });
        args.push(XmlArg { tag: "system_os", content: crate::ascii::str_bytes(self.system_os.as_str()) });
        let mut adv: Vec<XmlArg> = Vec::new();
        adv.push(XmlArg { tag: "initialize_dram", content: crate::ascii::str_bytes(self.init_dram.as_str()) });
        let mut sections: Vec<XmlSection> = Vec::new();
        sections.push(XmlSection { tag: "arg", args });
        sections.push(XmlSection { tag: "adv", args: adv });
        let r = create_cmd("1.1", "SET-RUNTIME-PARAMETER", &sections);
        proof {
            assert(spec_abs_sections(sections@) =~~= seq![
                ("arg"@, seq![
                    ("checksum_level"@, ascii_of(self.checksum_level@)),
                    ("battery_exist"@, ascii_of(self.battery_exist@)),
                    ("da_log_level"@, ascii_of(self.da_log_level@)),
                    ("log_channel"@, ascii_of(self.log_channel@)),
                    ("system_os"@, ascii_of(self.system_os@)),
                ]),
                ("adv"@, seq![("initialize_dram"@, ascii_of(self.init_dram@))]),
            ]);
        }
        r
    }
}

/// Announces the device-driven sub-commands this host answers.
pub struct HostSupportedCommands {
    pub host_capability: String,
}

impl XmlCommand for HostSupportedCommands {
    open spec fn spec_wf(&self) -> bool {
        self.host_capability.is_ascii()
    }

    open spec fn spec_xml(&self) -> Seq<u8> {
        spec_xml_doc("1.0"@, "HOST-SUPPORTED-COMMANDS"@, seq![("arg"@, seq![("host_capability"@, ascii_of(self.host_capability@))])])
    }

    fn to_xml(&self) -> (r: Vec<u8>) {
        proof {
            reveal_strlit("1.0");
            reveal_strlit("HOST-SUPPORTED-COMMANDS");
            reveal_strlit("arg");
            reveal_strlit("host_capability");
        }
        let mut args: Vec<XmlArg> = Vec::new();
        args.push(XmlArg { tag: "host_capability", content: crate::ascii::str_bytes(self.host_capability.as_str()) });
        let mut sections: Vec<XmlSection> = Vec::new();
        sections.push(XmlSection { tag: "arg", args });
        let r = create_cmd("1.0", "HOST-SUPPORTED-COMMANDS", &sections);
        proof {
            assert(spec_abs_sections(sections@) =~~= seq![("arg"@, seq![("host_capability"@, ascii_of(self.host_capability@))])]);
        }
        r
    }
}

/// Asks the agent to bring the hardware up; it reports progress until done.
pub struct NotifyInitHw {
}

impl XmlCommand for NotifyInitHw {
    open spec fn spec_wf(&self) -> bool {
        true
    }

    open spec fn spec_xml(&self) -> Seq<u8> {
        spec_xml_doc("1.0"@, "NOTIFY-INIT-HW"@, Seq::empty())
    }

    fn to_xml(&self) -> (r: Vec<u8>) {
        proof {
            reveal_strlit("1.0");
            reveal_strlit("NOTIFY-INIT-HW");
            reveal_strlit("arg");
        }

        let sections: Vec<XmlSection> = Vec::new();
        let r = create_cmd("1.0", "NOTIFY-INIT-HW", &sections);
        proof {
            assert(spec_abs_sections(sections@) =~~= Seq::<(Seq<char>, Seq<(Seq<char>, Seq<u8>)>)>::empty());
        }
        r
    }
}

/// Hands the host's identification string to the agent.
pub struct SetHostInfo {
    pub info: String,
}

impl XmlCommand for SetHostInfo {
    open spec fn spec_wf(&self) -> bool {
        self.info.is_ascii()
    }

    open spec fn spec_xml(&self) -> Seq<u8> {
        spec_xml_doc("1.0"@, "SET-HOST-INFO"@, seq![("arg"@, seq![("info"@, ascii_of(self.info@))])])
    }

    fn to_xml(&self) -> (r: Vec<u8>) {
        proof {
            reveal_strlit("1.0");
            reveal_strlit("SET-HOST-INFO");
            reveal_strlit("arg");
            reveal_strlit("info");
        }
        let mut args: Vec<XmlArg> = Vec::new();
        args.push(XmlArg { tag: "info", content: crate::ascii::str_bytes(self.info.as_str()) });
        let mut sections: Vec<XmlSection> = Vec::new();
        sections.push(XmlSection { tag: "arg", args });
        let r = create_cmd("1.0", "SET-HOST-INFO", &sections);
        proof {
            assert(spec_abs_sections(sections@) =~~= seq![("arg"@, seq![("info"@, ascii_of(self.info@))])]);
        }
        r
    }
}

/// Queries one system property into a memory-backed file.
pub struct GetSysProperty {
    pub key: String,
}

impl XmlCommand for GetSysProperty {
    open spec fn spec_wf(&self) -> bool {
        self.key.is_ascii()
    }

    open spec fn spec_xml(&self) -> Seq<u8> {
        spec_xml_doc("1.0"@, "GET-SYS-PROPERTY"@, seq![("arg"@, seq![("key"@, ascii_of(self.key@)), ("target_file"@, ascii_of("MEM://0x0:0x200000"@))])])
    }

    fn to_xml(&self) -> (r: Vec<u8>) {
        proof {
            reveal_strlit("1.0");
            reveal_strlit("GET-SYS-PROPERTY");
            reveal_strlit("MEM://0x0:0x200000");
            reveal_strlit("arg");
            reveal_strlit("key");
            reveal_strlit("target_file");
        }
        let mut args: Vec<XmlArg> = Vec::new();
        args.push(XmlArg { tag: "key", content: crate::ascii::str_bytes(self.key.as_str()) });
        args.push(XmlArg { tag: "target_file", content: crate::ascii::str_bytes("MEM://0x0:0x200000") });
        let mut sections: Vec<XmlSection> = Vec::new();
        sections.push(XmlSection { tag: "arg", args });
        let r = create_cmd("1.0", "GET-SYS-PROPERTY", &sections);
        proof {
            assert(spec_abs_sections(sections@) =~~= seq![("arg"@, seq![("key"@, ascii_of(self.key@)), ("target_file"@, ascii_of("MEM://0x0:0x200000"@))])]);
        }
        r
    }
}

/// Queries the device firmware security record.
pub struct SecurityGetDevFwInfo {
}

impl XmlCommand for SecurityGetDevFwInfo {
    open spec fn spec_wf(&self) -> bool {
        true
    }

    open spec fn spec_xml(&self) -> Seq<u8> {
        spec_xml_doc("1.0"@, "SECURITY-GET-DEV-FW-INFO"@, seq![("arg"@, seq![("target_file"@, ascii_of("MEM://0x0:0x200000"@))])])
    }

    fn to_xml(&self) -> (r: Vec<u8>) {
        proof {
            reveal_strlit("1.0");
            reveal_strlit("MEM://0x0:0x200000");
            reveal_strlit("SECURITY-GET-DEV-FW-INFO");
            reveal_strlit("arg");
            reveal_strlit("target_file");
        }
        let mut args: Vec<XmlArg> = Vec::new();
        args.push(XmlArg { tag: "target_file", content: crate::ascii::str_bytes("MEM://0x0:0x200000") });
        let mut sections: Vec<XmlSection> = Vec::new();
        sections.push(XmlSection { tag: "arg", args });
        let r = create_cmd("1.0", "SECURITY-GET-DEV-FW-INFO", &sections);
        proof {
            assert(spec_abs_sections(sections@) =~~= seq![("arg"@, seq![("target_file"@, ascii_of("MEM://0x0:0x200000"@))])]);
        }
        r
    }
}

/// Installs a flash policy from the named source.
pub struct SecuritySetFlashPolicy {
    pub source_file: String,
}

impl XmlCommand for SecuritySetFlashPolicy {
    open spec fn spec_wf(&self) -> bool {
        self.source_file.is_ascii()
    }

    open spec fn spec_xml(&self) -> Seq<u8> {
        spec_xml_doc("1.0"@, "SECURITY-SET-FLASH-POLICY"@, seq![("arg"@, seq![("source_file"@, ascii_of(self.source_file@))])])
    }

    fn to_xml(&self) -> (r: Vec<u8>) {
        proof {
            reveal_strlit("1.0");
            reveal_strlit("SECURITY-SET-FLASH-POLICY");
            reveal_strlit("arg");
            reveal_strlit("source_file");
        }
        let mut args: Vec<XmlArg> = Vec::new();
        args.push(XmlArg { tag: "source_file", content: crate::ascii::str_bytes(self.source_file.as_str()) });
        let mut sections: Vec<XmlSection> = Vec::new();
        sections.push(XmlSection { tag: "arg", args });
        let r = create_cmd("1.0", "SECURITY-SET-FLASH-POLICY", &sections);
        proof {
            assert(spec_abs_sections(sections@) =~~= seq![("arg"@, seq![("source_file"@, ascii_of(self.source_file@))])]);
        }
        r
    }
}

/// Queries the hardware record, storage kind and sizes included.
pub struct GetHwInfo {
}

impl XmlCommand for GetHwInfo {
    open spec fn spec_wf(&self) -> bool {
        true
    }

    open spec fn spec_xml(&self) -> Seq<u8> {
        spec_xml_doc("1.0"@, "GET-HW-INFO"@, seq![("arg"@, seq![("target_file"@, ascii_of("MEM://0x0:0x200000"@))])])
    }

    fn to_xml(&self) -> (r: Vec<u8>) {
        proof {
            reveal_strlit("1.0");
            reveal_strlit("GET-HW-INFO");
            reveal_strlit("MEM://0x0:0x200000");
            reveal_strlit("arg");
            reveal_strlit("target_file");
        }
        let mut args: Vec<XmlArg> = Vec::new();
        args.push(XmlArg { tag: "target_file", content: crate::ascii::str_bytes("MEM://0x0:0x200000") });
        let mut sections: Vec<XmlSection> = Vec::new();
        sections.push(XmlSection { tag: "arg", args });
        let r = create_cmd("1.0", "GET-HW-INFO", &sections);
        proof {
            assert(spec_abs_sections(sections@) =~~= seq![("arg"@, seq![("target_file"@, ascii_of("MEM://0x0:0x200000"@))])]);
        }
        r
    }
}

/// Reads a whole partition back by name.
pub struct ReadPartition {
    pub partition: String,
}

impl XmlCommand for ReadPartition {
    open spec fn spec_wf(&self) -> bool {
        self.partition.is_ascii()
    }

    open spec fn spec_xml(&self) -> Seq<u8> {
        spec_xml_doc("1.0"@, "READ-PARTITION"@, seq![("arg"@, seq![("partition"@, ascii_of(self.partition@)), ("target_file"@, ascii_of(self.partition@) + ascii_of(".bin"@))])])
    }

    fn to_xml(&self) -> (r: Vec<u8>) {
        proof {
            reveal_strlit(".bin");
            reveal_strlit("1.0");
            reveal_strlit("READ-PARTITION");
            reveal_strlit("arg");
            reveal_strlit("partition");
            reveal_strlit("target_file");
        }
        let mut args: Vec<XmlArg> = Vec::new();
        args.push(XmlArg { tag: "partition", content: crate::ascii::str_bytes(self.partition.as_str()) });
        args.push(XmlArg { tag: "target_file", content: { let mut c = crate::ascii::str_bytes(self.partition.as_str()); crate::ascii::push_str_bytes(&mut c, ".bin"); c } });
        let mut sections: Vec<XmlSection> = Vec::new();
        sections.push(XmlSection { tag: "arg", args });
        let r = create_cmd("1.0", "READ-PARTITION", &sections);
        proof {
            assert(spec_abs_sections(sections@) =~~= seq![("arg"@, seq![("partition"@, ascii_of(self.partition@)), ("target_file"@, ascii_of(self.partition@) + ascii_of(".bin"@))])]);
        }
        r
    }
}

/// Reads a flash range of the named section.
pub struct ReadFlash {
    pub partition: String,
    pub length: usize,
    pub offset: u64,
}

impl XmlCommand for ReadFlash {
    open spec fn spec_wf(&self) -> bool {
        self.partition.is_ascii()
    }

    open spec fn spec_xml(&self) -> Seq<u8> {
        spec_xml_doc("1.0"@, "READ-FLASH"@, seq![("arg"@, seq![("partition"@, ascii_of(self.partition@)), ("target_file"@, ascii_of(self.partition@)), ("length"@, ascii_of("0x"@) + spec_hex_upper(self.length as nat)), ("offset"@, ascii_of("0x"@) + spec_hex_upper(self.offset as nat))])])
    }

    fn to_xml(&self) -> (r: Vec<u8>) {
        proof {
            reveal_strlit("0x");
            reveal_strlit("1.0");
            reveal_strlit("READ-FLASH");
            reveal_strlit("arg");
            reveal_strlit("length");
            reveal_strlit("offset");
            reveal_strlit("partition");
            reveal_strlit("target_file");
        }
        let mut args: Vec<XmlArg> = Vec::new();
        args.push(XmlArg { tag: "partition", content: crate::ascii::str_bytes(self.partition.as_str()) });
        args.push(XmlArg { tag: "target_file", content: crate::ascii::str_bytes(self.partition.as_str()) });
        args.push(XmlArg { tag: "length", content: { let mut c = crate::ascii::str_bytes("0x"); let h = hex_upper(self.length as u64); let mut q: usize = 0; while q < h.len() invariant q <= h@.len(), c@ == ascii_of("0x"@) + h@.take(q as int), decreases h@.len() - q, { c.push(h[q]); assert(c@ =~= ascii_of("0x"@) + h@.take(q + 1)); q = q + 1; } assert(c@ =~= ascii_of("0x"@) + h@); c } });
        args.push(XmlArg { tag: "offset", content: { let mut c = crate::ascii::str_bytes("0x"); let h = hex_upper(self.offset as u64); let mut q: usize = 0; while q < h.len() invariant q <= h@.len(), c@ == ascii_of("0x"@) + h@.take(q as int), decreases h@.len() - q, { c.push(h[q]); assert(c@ =~= ascii_of("0x"@) + h@.take(q + 1)); q = q + 1; } assert(c@ =~= ascii_of("0x"@) + h@); c } });
        let mut sections: Vec<XmlSection> = Vec::new();
        sections.push(XmlSection { tag: "arg", args });
        let r = create_cmd("1.0", "READ-FLASH", &sections);
        proof {
            assert(spec_abs_sections(sections@) =~~= seq![("arg"@, seq![("partition"@, ascii_of(self.partition@)), ("target_file"@, ascii_of(self.partition@)), ("length"@, ascii_of("0x"@) + spec_hex_upper(self.length as nat)), ("offset"@, ascii_of("0x"@) + spec_hex_upper(self.offset as nat))])]);
        }
        r
    }
}

/// Writes a whole partition by name.
pub struct WritePartition {
    pub partition: String,
}

impl XmlCommand for WritePartition {
    open spec fn spec_wf(&self) -> bool {
        self.partition.is_ascii()
    }

    open spec fn spec_xml(&self) -> Seq<u8> {
        spec_xml_doc("1.0"@, "WRITE-PARTITION"@, seq![("arg"@, seq![("partition"@, ascii_of(self.partition@)), ("source_file"@, ascii_of(self.partition@) + ascii_of(".bin"@))])])
    }

    fn to_xml(&self) -> (r: Vec<u8>) {
        proof {
            reveal_strlit(".bin");
            reveal_strlit("1.0");
            reveal_strlit("WRITE-PARTITION");
            reveal_strlit("arg");
            reveal_strlit("partition");
            reveal_strlit("source_file");
        }
        let mut args: Vec<XmlArg> = Vec::new();
        args.push(XmlArg { tag: "partition", content: crate::ascii::str_bytes(self.partition.as_str()) });
        args.push(XmlArg { tag: "source_file", content: { let mut c = crate::ascii::str_bytes(self.partition.as_str()); crate::ascii::push_str_bytes(&mut c, ".bin"); c } });
        let mut sections: Vec<XmlSection> = Vec::new();
        sections.push(XmlSection { tag: "arg", args });
        let r = create_cmd("1.0", "WRITE-PARTITION", &sections);
        proof {
            assert(spec_abs_sections(sections@) =~~= seq![("arg"@, seq![("partition"@, ascii_of(self.partition@)), ("source_file"@, ascii_of(self.partition@) + ascii_of(".bin"@))])]);
        }
        r
    }
}

/// Writes a flash range of the named section from an in-memory source.
pub struct WriteFlash {
    pub partition: String,
    pub length: usize,
    pub offset: u64,
}

impl XmlCommand for WriteFlash {
    open spec fn spec_wf(&self) -> bool {
        self.partition.is_ascii()
    }

    open spec fn spec_xml(&self) -> Seq<u8> {
        spec_xml_doc("1.0"@, "WRITE-FLASH"@, seq![("arg"@, seq![("partition"@, ascii_of(self.partition@)), ("source_file"@, ascii_of("MEM:\\0x0:0x"@) + spec_hex_upper(self.length as nat)), ("offset"@, ascii_of("0x"@) + spec_hex_upper(self.offset as nat))])])
    }

    fn to_xml(&self) -> (r: Vec<u8>) {
        proof {
            reveal_strlit("0x");
            reveal_strlit("1.0");
            reveal_strlit("MEM:\\0x0:0x");
            reveal_strlit("WRITE-FLASH");
            reveal_strlit("arg");
            reveal_strlit("offset");
            reveal_strlit("partition");
            reveal_strlit("source_file");
        }
        let mut args: Vec<XmlArg> = Vec::new();
        args.push(XmlArg { tag: "partition", content: crate::ascii::str_bytes(self.partition.as_str()) });
        args.push(XmlArg { tag: "source_file", content: { let mut c = crate::ascii::str_bytes("MEM:\\0x0:0x"); let h = hex_upper(self.length as u64); let mut q: usize = 0; while q < h.len() invariant q <= h@.len(), c@ == ascii_of("MEM:\\0x0:0x"@) + h@.take(q as int), decreases h@.len() - q, { c.push(h[q]); assert(c@ =~= ascii_of("MEM:\\0x0:0x"@) + h@.take(q + 1)); q = q + 1; } assert(c@ =~= ascii_of("MEM:\\0x0:0x"@) + h@); c } });
        args.push(XmlArg { tag: "offset", content: { let mut c = crate::ascii::str_bytes("0x"); let h = hex_upper(self.offset as u64); let mut q: usize = 0; while q < h.len() invariant q <= h@.len(), c@ == ascii_of("0x"@) + h@.take(q as int), decreases h@.len() - q, { c.push(h[q]); assert(c@ =~= ascii_of("0x"@) + h@.take(q + 1)); q = q + 1; } assert(c@ =~= ascii_of("0x"@) + h@); c } });
        let mut sections: Vec<XmlSection> = Vec::new();
        sections.push(XmlSection { tag: "arg", args });
        let r = create_cmd("1.0", "WRITE-FLASH", &sections);
        proof {
            assert(spec_abs_sections(sections@) =~~= seq![("arg"@, seq![("partition"@, ascii_of(self.partition@)), ("source_file"@, ascii_of("MEM:\\0x0:0x"@) + spec_hex_upper(self.length as nat)), ("offset"@, ascii_of("0x"@) + spec_hex_upper(self.offset as nat))])]);
        }
        r
    }
}

/// Erases a whole partition by name.
pub struct ErasePartition {
    pub partition: String,
}

impl XmlCommand for ErasePartition {
    open spec fn spec_wf(&self) -> bool {
        self.partition.is_ascii()
    }

    open spec fn spec_xml(&self) -> Seq<u8> {
        spec_xml_doc("1.0"@, "ERASE-PARTITION"@, seq![("arg"@, seq![("partition"@, ascii_of(self.partition@))])])
    }

    fn to_xml(&self) -> (r: Vec<u8>) {
        proof {
            reveal_strlit("1.0");
            reveal_strlit("ERASE-PARTITION");
            reveal_strlit("arg");
            reveal_strlit("partition");
        }
        let mut args: Vec<XmlArg> = Vec::new();
        args.push(XmlArg { tag: "partition", content: crate::ascii::str_bytes(self.partition.as_str()) });
        let mut sections: Vec<XmlSection> = Vec::new();
        sections.push(XmlSection { tag: "arg", args });
        let r = create_cmd("1.0", "ERASE-PARTITION", &sections);
        proof {
            assert(spec_abs_sections(sections@) =~~= seq![("arg"@, seq![("partition"@, ascii_of(self.partition@))])]);
        }
        r
    }
}

/// Erases a flash range of the named section.
pub struct EraseFlash {
    pub section: String,
    pub length: usize,
    pub offset: u64,
}

impl XmlCommand for EraseFlash {
    open spec fn spec_wf(&self) -> bool {
        self.section.is_ascii()
    }

    open spec fn spec_xml(&self) -> Seq<u8> {
        spec_xml_doc("1.0"@, "ERASE-FLASH"@, seq![("arg"@, seq![("partition"@, ascii_of(self.section@)), ("length"@, ascii_of("0x"@) + spec_hex_upper(self.length as nat)), ("offset"@, ascii_of("0x"@) + spec_hex_upper(self.offset as nat))])])
    }

    fn to_xml(&self) -> (r: Vec<u8>) {
        proof {
            reveal_strlit("0x");
            reveal_strlit("1.0");
            reveal_strlit("ERASE-FLASH");
            reveal_strlit("arg");
            reveal_strlit("length");
            reveal_strlit("offset");
            reveal_strlit("partition");
        }
        let mut args: Vec<XmlArg> = Vec::new();
        args.push(XmlArg { tag: "partition", content: crate::ascii::str_bytes(self.section.as_str()) });
        args.push(XmlArg { tag: "length", content: { let mut c = crate::ascii::str_bytes("0x"); let h = hex_upper(self.length as u64); let mut q: usize = 0; while q < h.len() invariant q <= h@.len(), c@ == ascii_of("0x"@) + h@.take(q as int), decreases h@.len() - q, { c.push(h[q]); assert(c@ =~= ascii_of("0x"@) + h@.take(q + 1)); q = q + 1; } assert(c@ =~= ascii_of("0x"@) + h@); c } });
        args.push(XmlArg { tag: "offset", content: { let mut c = crate::ascii::str_bytes("0x"); let h = hex_upper(self.offset as u64); let mut q: usize = 0; while q < h.len() invariant q <= h@.len(), c@ == ascii_of("0x"@) + h@.take(q as int), decreases h@.len() - q, { c.push(h[q]); assert(c@ =~= ascii_of("0x"@) + h@.take(q + 1)); q = q + 1; } assert(c@ =~= ascii_of("0x"@) + h@); c } });
        let mut sections: Vec<XmlSection> = Vec::new();
        sections.push(XmlSection { tag: "arg", args });
        let r = create_cmd("1.0", "ERASE-FLASH", &sections);
        proof {
            assert(spec_abs_sections(sections@) =~~= seq![("arg"@, seq![("partition"@, ascii_of(self.section@)), ("length"@, ascii_of("0x"@) + spec_hex_upper(self.length as nat)), ("offset"@, ascii_of("0x"@) + spec_hex_upper(self.offset as nat))])]);
        }
        r
    }
}

/// Reboots the device with the named action.
pub struct Reboot {
    pub action: String,
}

impl XmlCommand for Reboot {
    open spec fn spec_wf(&self) -> bool {
        self.action.is_ascii()
    }

    open spec fn spec_xml(&self) -> Seq<u8> {
        spec_xml_doc("1.0"@, "REBOOT"@, seq![("arg"@, seq![("action"@, ascii_of(self.action@))])])
    }

    fn to_xml(&self) -> (r: Vec<u8>) {
        proof {
            reveal_strlit("1.0");
            reveal_strlit("REBOOT");
            reveal_strlit("action");
            reveal_strlit("arg");
        }
        let mut args: Vec<XmlArg> = Vec::new();
        args.push(XmlArg { tag: "action", content: crate::ascii::str_bytes(self.action.as_str()) });
        let mut sections: Vec<XmlSection> = Vec::new();
        sections.push(XmlSection { tag: "arg", args });
        let r = create_cmd("1.0", "REBOOT", &sections);
        proof {
            assert(spec_abs_sections(sections@) =~~= seq![("arg"@, seq![("action"@, ascii_of(self.action@))])]);
        }
        r
    }
}

/// Selects the mode the device boots into next.
pub struct SetBootMode {
    pub mode: String,
    pub connect_type: String,
    pub mobile_log: String,
    pub adb: String,
}

impl XmlCommand for SetBootMode {
    open spec fn spec_wf(&self) -> bool {
        self.mode.is_ascii() && self.connect_type.is_ascii() && self.mobile_log.is_ascii() && self.adb.is_ascii()
    }

    open spec fn spec_xml(&self) -> Seq<u8> {
        spec_xml_doc("1.0"@, "SET-BOOT-MODE"@, seq![("arg"@, seq![("mode"@, ascii_of(self.mode@)), ("connect_type"@, ascii_of(self.connect_type@)), ("mobile_log"@, ascii_of(self.mobile_log@)), ("adb"@, ascii_of(self.adb@))])])
    }

    fn to_xml(&self) -> (r: Vec<u8>) {
        proof {
            reveal_strlit("1.0");
            reveal_strlit("SET-BOOT-MODE");
            reveal_strlit("adb");
            reveal_strlit("arg");
            reveal_strlit("connect_type");
            reveal_strlit("mobile_log");
            reveal_strlit("mode");
        }
        let mut args: Vec<XmlArg> = Vec::new();
        args.push(XmlArg { tag: "mode", content: crate::ascii::str_bytes(self.mode.as_str()) });
        args.push(XmlArg { tag: "connect_type", content: crate::ascii::str_bytes(self.connect_type.as_str()) });
        args.push(XmlArg { tag: "mobile_log", content: crate::ascii::str_bytes(self.mobile_log.as_str()) });
        args.push(XmlArg { tag: "adb", content: crate::ascii::str_bytes(self.adb.as_str()) });
        let mut sections: Vec<XmlSection> = Vec::new();
        sections.push(XmlSection { tag: "arg", args });
        let r = create_cmd("1.0", "SET-BOOT-MODE", &sections);
        proof {
            assert(spec_abs_sections(sections@) =~~= seq![("arg"@, seq![("mode"@, ascii_of(self.mode@)), ("connect_type"@, ascii_of(self.connect_type@)), ("mobile_log"@, ascii_of(self.mobile_log@)), ("adb"@, ascii_of(self.adb@))])]);
        }
        r
    }
}

} // verus!
