//! What the program tells the user in text: the list of adapters, the
//! warning about virtual adapters, and the wording of the faults.

use crate::adapters::Adapter;
use crate::directions::ConfigError;
use crate::dotted::{decimal_bytes, ipv4_bytes};
use crate::net::{HostAddr, Ipv4};
use crate::text::{bytes_of, decimal, push_decimal};
use vstd::prelude::*;

verus! {

/// The width of the address column of the adapter list.
pub const ADDRESS_WIDTH: usize = 15;

/// The address in dotted-decimal text.
pub open spec fn ipv4_text_spec(ip: Ipv4) -> Seq<char> {
    decimal(ip.a as nat) + "."@ + decimal(ip.b as nat) + "."@ + decimal(ip.c as nat) + "."@
        + decimal(ip.d as nat)
}

/// `n` spaces.
pub open spec fn spaces(n: nat) -> Seq<char> {
    Seq::new(n, |i: int| ' ')
}

/// The decimal text of a number is ASCII, and its characters are the bytes
/// of the number's decimal text.
pub proof fn lemma_decimal_is_ascii(n: nat)
    ensures
        decimal(n).len() == decimal_bytes(n).len(),
        forall|i: int|
            0 <= i < decimal(n).len() ==> '\0' <= #[trigger] decimal(n)[i] <= '\u{7f}'
                && decimal(n)[i] as u8 == decimal_bytes(n)[i],
    decreases n,
{
    if n >= 10 {
        lemma_decimal_is_ascii(n / 10);
    }
}

/// The dotted-decimal text of an address, taken as bytes, is the text that
/// reads as the address.
pub proof fn lemma_dotted_text_reads_back(ip: Ipv4)
    ensures
        bytes_of(ipv4_text_spec(ip)) == ipv4_bytes(ip),
{
    reveal_strlit(".");
    lemma_decimal_is_ascii(ip.a as nat);
    lemma_decimal_is_ascii(ip.b as nat);
    lemma_decimal_is_ascii(ip.c as nat);
    lemma_decimal_is_ascii(ip.d as nat);
    let text = ipv4_text_spec(ip);
    let bytes = ipv4_bytes(ip);
    let a = decimal(ip.a as nat);
    let b = decimal(ip.b as nat);
    let c = decimal(ip.c as nat);
    let d = decimal(ip.d as nat);
    let one = a.len() as int;
    let two = one + 1 + b.len();
    let three = two + 1 + c.len();
    assert(text.len() == bytes.len());
    assert forall|i: int| 0 <= i < text.len() implies '\0' <= #[trigger] text[i] <= '\u{7f}'
        && text[i] as u8 == bytes[i] by {
        if i < one {
            assert(text[i] == a[i]);
        } else if i == one {
            assert(text[i] == '.');
        } else if i < two {
            assert(text[i] == b[i - one - 1]);
        } else if i == two {
            assert(text[i] == '.');
        } else if i < three {
            assert(text[i] == c[i - two - 1]);
        } else if i == three {
            assert(text[i] == '.');
        } else {
            assert(text[i] == d[i - three - 1]);
        }
    }
    assert(vstd::utf8::is_ascii_chars(text));
    vstd::utf8::is_ascii_chars_encode_utf8(text);
    assert(bytes_of(text) =~= bytes);
}

/// Appends the address in dotted-decimal text.
pub fn push_ipv4(out: &mut String, ip: Ipv4)
    ensures
        final(out)@ == old(out)@ + ipv4_text_spec(ip),
{
    push_decimal(out, ip.a as u16);
    out.append(".");
    push_decimal(out, ip.b as u16);
    out.append(".");
    push_decimal(out, ip.c as u16);
    out.append(".");
    push_decimal(out, ip.d as u16);
    assert(out@ =~= old(out)@ + ipv4_text_spec(ip));
}

/// The address in dotted-decimal text.
pub fn ipv4_text(ip: Ipv4) -> (text: String)
    ensures
        text@ == ipv4_text_spec(ip),
{
    let mut text: String = String::new();
    push_ipv4(&mut text, ip);
    assert(text@ =~= ipv4_text_spec(ip));
    text
}

/// Appends `n` spaces.
pub fn push_spaces(out: &mut String, n: usize)
    ensures
        final(out)@ == old(out)@ + spaces(n as nat),
{
    let mut i: usize = 0;
    proof {
        reveal_strlit(" ");
        assert(out@ =~= old(out)@ + spaces(0));
    }
    while i < n
        invariant
            i <= n,
            out@ == old(out)@ + spaces(i as nat),
            " "@ == seq![' '],
        decreases n - i,
    {
        out.append(" ");
        assert(out@ =~= old(out)@ + spaces((i + 1) as nat));
        i = i + 1;
    }
}

/// The first IPv4 address of a list of addresses.
pub open spec fn first_ipv4_spec(addresses: Seq<HostAddr>) -> Option<Ipv4>
    decreases addresses.len(),
{
    if addresses.len() == 0 {
        None
    } else if first_ipv4_spec(addresses.drop_last()) is Some {
        first_ipv4_spec(addresses.drop_last())
    } else {
        match addresses.last() {
            HostAddr::V4(ip) => Some(ip),
            HostAddr::V6 => None,
        }
    }
}

/// The first IPv4 address of a list of addresses.
pub fn first_ipv4(addresses: &[HostAddr]) -> (found: Option<Ipv4>)
    ensures
        found == first_ipv4_spec(addresses@),
{
    let mut found: Option<Ipv4> = None;
    let mut i: usize = 0;
    assert(addresses@.take(0) =~= Seq::<HostAddr>::empty());
    while i < addresses.len()
        invariant
            i <= addresses@.len(),
            found == first_ipv4_spec(addresses@.take(i as int)),
        decreases addresses@.len() - i,
    {
        proof {
            assert(addresses@.take(i as int + 1).drop_last() =~= addresses@.take(i as int));
            assert(addresses@.take(i as int + 1).last() == addresses@[i as int]);
        }
        if found.is_none() {
            match addresses[i] {
                HostAddr::V4(ip) => {
                    found = Some(ip);
                },
                HostAddr::V6 => {},
            }
        }
        i = i + 1;
    }
    assert(addresses@.take(addresses@.len() as int) =~= addresses@);
    found
}

/// The text of an adapter's description; empty where it has none.
pub open spec fn desc_text(desc: Option<String>) -> Seq<char> {
    match desc {
        Some(text) => text@,
        None => Seq::empty(),
    }
}

/// The address column: the address, filled up with spaces to
/// `ADDRESS_WIDTH` where it is shorter.
pub open spec fn address_column(ip: Ipv4) -> Seq<char> {
    let text = ipv4_text_spec(ip);
    if text.len() < ADDRESS_WIDTH {
        text + spaces((ADDRESS_WIDTH - text.len()) as nat)
    } else {
        text
    }
}

/// The line of an adapter in the adapter list: name, address and
/// description, two spaces between the columns.
pub open spec fn device_row_spec(name: Seq<char>, ip: Ipv4, desc: Option<String>) -> Seq<char> {
    name + "  "@ + address_column(ip) + "  "@ + desc_text(desc)
}

/// The line of an adapter in the adapter list; none for an adapter without
/// an IPv4 address.
pub fn device_row(adapter: &Adapter) -> (row: Option<String>)
    ensures
        row is Some <==> first_ipv4_spec(adapter.addresses@) is Some,
        row is Some ==> row->Some_0@ == device_row_spec(
            adapter.name@,
            first_ipv4_spec(adapter.addresses@)->Some_0,
            adapter.desc,
        ),
{
    let ip: Ipv4 = match first_ipv4(adapter.addresses.as_slice()) {
        Some(ip) => ip,
        None => {
            return None;
        },
    };
    let address: String = ipv4_text(ip);
    let width: usize = address.as_str().unicode_len();
    let mut row: String = String::from_str(adapter.name.as_str());
    row.append("  ");
    row.append(address.as_str());
    if width < ADDRESS_WIDTH {
        push_spaces(&mut row, ADDRESS_WIDTH - width);
    }
    row.append("  ");
    match &adapter.desc {
        Some(desc) => {
            row.append(desc.as_str());
        },
        None => {},
    }
    assert(row@ =~= device_row_spec(adapter.name@, ip, adapter.desc));
    Some(row)
}

/// The heading of the adapter list.
pub open spec fn table_heading(monochrome: bool) -> Seq<char> {
    if monochrome {
        "Network adapter name                                IP address       Description"@
    } else {
        "\x1b[32mNetwork adapter name                                IP address       Description\x1b[0m"@
    }
}

/// The lines of the first `n` adapters: one for each adapter with an IPv4
/// address.
pub open spec fn device_rows(devs: Seq<Adapter>, n: int) -> Seq<Seq<char>>
    decreases n,
{
    if n <= 0 {
        Seq::empty()
    } else {
        match first_ipv4_spec(devs[n - 1].addresses@) {
            Some(ip) => device_rows(devs, n - 1).push(
                device_row_spec(devs[n - 1].name@, ip, devs[n - 1].desc),
            ),
            None => device_rows(devs, n - 1),
        }
    }
}

/// The texts of a list of lines.
pub open spec fn texts(lines: Seq<String>) -> Seq<Seq<char>> {
    Seq::new(lines.len(), |i: int| lines[i]@)
}

/// The adapter list: the heading, in colour unless colours are switched
/// off, and one line for each adapter with an IPv4 address.
pub fn print_devices(devs: &[Adapter], monochrome: bool) -> (lines: Vec<String>)
    ensures
        texts(lines@) == seq![table_heading(monochrome)] + device_rows(devs@, devs@.len() as int),
{
    let heading: &'static str = if monochrome {
        "Network adapter name                                IP address       Description"
    } else {
        "\x1b[32mNetwork adapter name                                IP address       Description\x1b[0m"
    };
    let mut lines: Vec<String> = Vec::new();
    lines.push(String::from_str(heading));
    let mut i: usize = 0;
    assert(texts(lines@) =~= seq![table_heading(monochrome)] + device_rows(devs@, 0));
    while i < devs.len()
        invariant
            i <= devs@.len(),
            texts(lines@) == seq![table_heading(monochrome)] + device_rows(devs@, i as int),
        decreases devs@.len() - i,
    {
        let ghost before = lines@;
        match device_row(&devs[i]) {
            Some(row) => {
                lines.push(row);
                assert(texts(lines@) =~= texts(before).push(row@));
                assert(texts(lines@) =~= seq![table_heading(monochrome)] + device_rows(
                    devs@,
                    i as int + 1,
                ));
            },
            None => {},
        }
        i = i + 1;
    }
    lines
}

/// The command that switches the adapter with this description off or on.
pub open spec fn adapter_command(enable: bool, desc: Seq<char>) -> Seq<char> {
    (if enable {
        "\tEnable-NetAdapter -InterfaceDescription  \""@
    } else {
        "\tDisable-NetAdapter -InterfaceDescription  \""@
    }) + desc + "\""@
}

/// The warning about virtual adapters with these descriptions: nothing
/// where there is none; else three lines of advice, the command that
/// disables each, a line of comfort, and the command that enables each.
pub open spec fn virt_warning_spec(descs: Seq<String>) -> Seq<Seq<char>> {
    if descs.len() == 0 {
        Seq::empty()
    } else {
        seq![
            "There are active virtual network adapters in your system."@,
            "To prevent troubles either disable virtual adapters or specify the correct HW adapter via command line."@,
            "Here are PowerShell commands (run as Administrator):"@,
        ] + Seq::new(descs.len(), |i: int| adapter_command(false, descs[i]@))
            + seq!["Feel free to enable them back using following PowerShell commands:"@]
            + Seq::new(descs.len(), |i: int| adapter_command(true, descs[i]@))
    }
}

/// The command that switches the adapter with this description off or on.
pub fn adapter_command_text(enable: bool, desc: &str) -> (line: String)
    ensures
        line@ == adapter_command(enable, desc@),
{
    let mut line: String = if enable {
        String::from_str("\tEnable-NetAdapter -InterfaceDescription  \"")
    } else {
        String::from_str("\tDisable-NetAdapter -InterfaceDescription  \"")
    };
    line.append(desc);
    line.append("\"");
    line
}

/// The lines that warn of the virtual adapters with these descriptions.
pub fn show_virt_dev_warning(descs: &[String]) -> (lines: Vec<String>)
    ensures
        texts(lines@) == virt_warning_spec(descs@),
{
    let mut lines: Vec<String> = Vec::new();
    if descs.len() == 0 {
        assert(texts(lines@) =~= virt_warning_spec(descs@));
        return lines;
    }
    lines.push(String::from_str("There are active virtual network adapters in your system."));
    lines.push(
        String::from_str(
            "To prevent troubles either disable virtual adapters or specify the correct HW adapter via command line.",
        ),
    );
    lines.push(String::from_str("Here are PowerShell commands (run as Administrator):"));
    let ghost head = texts(lines@);
    let mut i: usize = 0;
    assert(texts(lines@) =~= head + Seq::new(0, |k: int| adapter_command(false, descs@[k]@)));
    while i < descs.len()
        invariant
            i <= descs@.len(),
            texts(lines@) == head + Seq::new(i as nat, |k: int| adapter_command(false, descs@[k]@)),
        decreases descs@.len() - i,
    {
        let ghost before = lines@;
        let line: String = adapter_command_text(false, descs[i].as_str());
        lines.push(line);
        assert(texts(lines@) =~= texts(before).push(line@));
        assert(texts(lines@) =~= head + Seq::new(
            (i + 1) as nat,
            |k: int| adapter_command(false, descs@[k]@),
        ));
        i = i + 1;
    }
    let ghost before = lines@;
    lines.push(
        String::from_str("Feel free to enable them back using following PowerShell commands:"),
    );
    assert(texts(lines@) =~= texts(before).push(
        "Feel free to enable them back using following PowerShell commands:"@,
    ));
    let ghost middle = texts(lines@);
    let mut j: usize = 0;
    assert(texts(lines@) =~= middle + Seq::new(0, |k: int| adapter_command(true, descs@[k]@)));
    while j < descs.len()
        invariant
            j <= descs@.len(),
            texts(lines@) == middle + Seq::new(j as nat, |k: int| adapter_command(true, descs@[k]@)),
        decreases descs@.len() - j,
    {
        let ghost before = lines@;
        let line: String = adapter_command_text(true, descs[j].as_str());
        lines.push(line);
        assert(texts(lines@) =~= texts(before).push(line@));
        assert(texts(lines@) =~= middle + Seq::new(
            (j + 1) as nat,
            |k: int| adapter_command(true, descs@[k]@),
        ));
        j = j + 1;
    }
    assert(texts(lines@) =~= virt_warning_spec(descs@));
    lines
}

/// The wording of a configuration fault.
pub open spec fn config_message_spec(error: ConfigError) -> Seq<char> {
    match error {
        ConfigError::OwnAddress(ip) => "Wrong buddy address "@ + ipv4_text_spec(ip),
        ConfigError::Ipv6Tunnel => "IPv6 VPN address is not supported here."@,
        ConfigError::AmbiguousPeer(ip) => "Ambiguous buddy address "@ + ipv4_text_spec(ip),
        ConfigError::UnmatchedPeers(_) => "Redundant buddy IP."@,
    }
}

/// The wording of a configuration fault.
pub fn config_message(error: &ConfigError) -> (text: String)
    ensures
        text@ == config_message_spec(*error),
{
    match error {
        ConfigError::OwnAddress(ip) => {
            let mut text: String = String::from_str("Wrong buddy address ");
            push_ipv4(&mut text, *ip);
            text
        },
        ConfigError::Ipv6Tunnel => String::from_str("IPv6 VPN address is not supported here."),
        ConfigError::AmbiguousPeer(ip) => {
            let mut text: String = String::from_str("Ambiguous buddy address ");
            push_ipv4(&mut text, *ip);
            text
        },
        ConfigError::UnmatchedPeers(_) => String::from_str("Redundant buddy IP."),
    }
}

} // verus!
