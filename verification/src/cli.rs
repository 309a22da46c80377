//! The command line: the options, the settings they fill, and the checks on
//! their values. Walking the arguments is the caller's part; what an option
//! and its values mean is decided here.

use crate::discovery::{default_multicast_ip, MULTICAST_PORT, UDPING_PORT};
use crate::dotted::{parse_ipv4, parsed_ipv4};
use crate::logger::{Logger, BASE_VERBOSITY};
use crate::net::Ipv4;
use crate::text::{
    bytes_of, ends_with, has_prefix, has_suffix, number_spec, parse_number, same_text, starts_with,
};
use vstd::prelude::*;

verus! {

/// The settings that the command line fills.
#[derive(Debug)]
pub struct Arguments {
    pub srcdev: Option<String>,
    pub dstdev: Vec<String>,
    pub buddyip: Vec<Ipv4>,
    pub port: Vec<u16>,
    pub mip: Option<Ipv4>,
    pub mport: Option<u16>,
    pub uport: Option<u16>,
    pub no_multicast: bool,
    pub no_udping: bool,
}

/// The options that take no value.
#[derive(Clone, Copy, Debug, PartialEq, Eq, Structural)]
pub enum Flag {
    Help,
    Devices,
    Monochrome,
    NoMulticast,
    NoUdping,
}

/// The options that take one value.
#[derive(Clone, Copy, Debug, PartialEq, Eq, Structural)]
pub enum Single {
    Verbose,
    SrcDev,
    Mip,
    Mport,
    Uport,
}

/// The options that take one value or more.
#[derive(Clone, Copy, Debug, PartialEq, Eq, Structural)]
pub enum Listed {
    DstDev,
    BuddyIp,
    Port,
}

/// The options of the command line, by the number of values they take.
#[derive(Clone, Copy, Debug, PartialEq, Eq, Structural)]
pub enum CliOption {
    Flag(Flag),
    Single(Single),
    Listed(Listed),
}

/// The help text.
pub const HELP: &'static str = "\
vpnparty is a next gen LAN party.

USAGE:
  vpnparty [FLAGS] [OPTIONS]

FLAGS:
  -h, --help              Prints help information
  --devices               List available network adapters
  --monochrome            Don't use colors in output
  --no-multicast          Disable multicast discovery
  --no-udping             Disable ping discovery

OPTIONS:
  -v, --verbose  NUMBER        Verbosity level [0-2] where 1 is debug and 2 trace level.
  -s, --srcdev   \"NAME\"        Name of the device, which receives broadcast packets.
                               Usually this is your Ethernet or Wi-Fi adapter, but might be a Hyper-V Virtual adapter.
                               Example: --srcdev=\"\\Device\\NPF_{D0B8AF5E-B11D-XXXX-XXXX-XXXXXXXXXXXX}\"
  -d, --dstdev \"NAME\" \"NAME\"   Space-separated list of your VPN connection devices.
                               Supported VPNs are Wireguard and OpenVPN, altough other should work as well.
                               Example --dstdev \"\\Device\\NPF_{CFB8AF5E-A00C-XXXX-XXXX-XXXXXXXXXXXX}\" \"\\Device\\NPF_{E1C9B06F-C22E-XXXX-XXXX-XXXXXXXXXXXX}\"
  -b, --buddyip IP IP          Space-separated list of your teammates IP addresses.
                               Usually statically assigned in Wireguard/OpenVPN configuration.
                               Example: --buddyip 10.2.0.5 10.2.0.6 10.2.0.9 10.2.0.15
  -p, --port PORT PORT         Capture broadcast packets only for given ports. Predefined constants are \"all\" (default) and \"known\".
                               Example: -p 4549 6112 42801
                               Example: -p known
  --mip IP                     Specify custom multicast IP (default is 239.1.2.3). Must be same for all buddies.
                               Must belong to the multicast range! Best option is 239.*.*.* range.
                               Example: --mip 239.240.241.242
  --mport PORT                 Specify custom multicast port (default is 54929). Must be same for all buddies.
                               Example: --mport 61111
  --uport PORT                 Specify custom udp discovery port (default is 54928). Must be same for all buddies.
                               Example: --uport 61112
";

/// The most by which one option raises the verbosity.
pub const MAX_VERBOSITY: u8 = 3;

/// The length of an adapter name.
pub const DEV_NAME_LEN: usize = 50;

/// The port that a text stands for: a number from 0 to 65535.
pub open spec fn parsed_u16(text: Seq<char>) -> Option<u16> {
    match number_spec(bytes_of(text), 65535) {
        Some(n) => Some(n as u16),
        None => None,
    }
}

/// The verbosity that a text stands for: a number from 0 to 255.
pub open spec fn parsed_u8(text: Seq<char>) -> Option<u8> {
    match number_spec(bytes_of(text), 255) {
        Some(n) => Some(n as u8),
        None => None,
    }
}

/// Reads a port: a number from 0 to 65535 in decimal.
pub fn parse_u16(text: &str) -> (number: Option<u16>)
    ensures
        number == parsed_u16(text@),
{
    parse_number(text.as_bytes(), 65535)
}

/// Reads a verbosity: a number from 0 to 255 in decimal.
pub fn parse_u8(text: &str) -> (number: Option<u8>)
    ensures
        number == parsed_u8(text@),
{
    match parse_number(text.as_bytes(), 255) {
        Some(n) => Some(n as u8),
        None => None,
    }
}

/// The ports of the games that are known to announce themselves by
/// broadcast.
pub open spec fn known_ports_spec() -> Seq<u16> {
    seq![4549u16, 6112u16, 42801u16]
}

/// The ports of the games that are known to announce themselves by
/// broadcast.
pub fn known_ports() -> (ports: Vec<u16>)
    ensures
        ports@ == known_ports_spec(),
{
    let ports: Vec<u16> = vec![4549, 6112, 42801];
    assert(ports@ =~= known_ports_spec());
    ports
}

/// The verbosity that one option asks for, cut off at `MAX_VERBOSITY`.
pub fn clamp_verbosity(verbosity: u8) -> (clamped: u8)
    ensures
        clamped == if verbosity < MAX_VERBOSITY {
            verbosity
        } else {
            MAX_VERBOSITY
        },
{
    if verbosity < MAX_VERBOSITY {
        verbosity
    } else {
        MAX_VERBOSITY
    }
}

/// An adapter name is 50 bytes long, begins with `\Device\NPF_{` and ends
/// with `}`.
pub open spec fn is_device_name_spec(name: Seq<char>) -> bool {
    let bytes = bytes_of(name);
    &&& bytes.len() == DEV_NAME_LEN
    &&& has_prefix(bytes, bytes_of("\\Device\\NPF_{"@))
    &&& has_suffix(bytes, bytes_of("}"@))
}

/// Whether `name` has the form of an adapter name.
pub fn is_device_name(name: &str) -> (valid: bool)
    ensures
        valid == is_device_name_spec(name@),
{
    let bytes: &[u8] = name.as_bytes();
    starts_with(bytes, "\\Device\\NPF_{".as_bytes()) && ends_with(bytes, "}".as_bytes())
        && bytes.len() == DEV_NAME_LEN
}

/// The option that a single letter stands for.
pub open spec fn short_option_spec(letter: char) -> Option<CliOption> {
    if letter == 'v' {
        Some(CliOption::Single(Single::Verbose))
    } else if letter == 's' {
        Some(CliOption::Single(Single::SrcDev))
    } else if letter == 'd' {
        Some(CliOption::Listed(Listed::DstDev))
    } else if letter == 'b' {
        Some(CliOption::Listed(Listed::BuddyIp))
    } else if letter == 'p' {
        Some(CliOption::Listed(Listed::Port))
    } else if letter == 'h' {
        Some(CliOption::Flag(Flag::Help))
    } else {
        None
    }
}

/// The option that a single letter stands for.
pub fn short_option(letter: char) -> (option: Option<CliOption>)
    ensures
        option == short_option_spec(letter),
{
    if letter == 'v' {
        Some(CliOption::Single(Single::Verbose))
    } else if letter == 's' {
        Some(CliOption::Single(Single::SrcDev))
    } else if letter == 'd' {
        Some(CliOption::Listed(Listed::DstDev))
    } else if letter == 'b' {
        Some(CliOption::Listed(Listed::BuddyIp))
    } else if letter == 'p' {
        Some(CliOption::Listed(Listed::Port))
    } else if letter == 'h' {
        Some(CliOption::Flag(Flag::Help))
    } else {
        None
    }
}

/// Whether `name` reads the same as `word`.
pub open spec fn reads(name: Seq<char>, word: &str) -> bool {
    bytes_of(name) == bytes_of(word@)
}

/// The option that a long name stands for.
pub open spec fn long_option_spec(name: Seq<char>) -> Option<CliOption> {
    if reads(name, "verbose") {
        Some(CliOption::Single(Single::Verbose))
    } else if reads(name, "srcdev") {
        Some(CliOption::Single(Single::SrcDev))
    } else if reads(name, "dstdev") {
        Some(CliOption::Listed(Listed::DstDev))
    } else if reads(name, "buddyip") {
        Some(CliOption::Listed(Listed::BuddyIp))
    } else if reads(name, "port") {
        Some(CliOption::Listed(Listed::Port))
    } else if reads(name, "mip") {
        Some(CliOption::Single(Single::Mip))
    } else if reads(name, "mport") {
        Some(CliOption::Single(Single::Mport))
    } else if reads(name, "uport") {
        Some(CliOption::Single(Single::Uport))
    } else if reads(name, "help") {
        Some(CliOption::Flag(Flag::Help))
    } else if reads(name, "devices") {
        Some(CliOption::Flag(Flag::Devices))
    } else if reads(name, "monochrome") {
        Some(CliOption::Flag(Flag::Monochrome))
    } else if reads(name, "no-multicast") {
        Some(CliOption::Flag(Flag::NoMulticast))
    } else if reads(name, "no-udping") {
        Some(CliOption::Flag(Flag::NoUdping))
    } else {
        None
    }
}

/// Whether `name` reads the same as `word`.
pub fn is_word(name: &str, word: &str) -> (same: bool)
    ensures
        same == reads(name@, word),
{
    same_text(name.as_bytes(), word.as_bytes())
}

/// The option that a long name stands for.
pub fn long_option(name: &str) -> (option: Option<CliOption>)
    ensures
        option == long_option_spec(name@),
{
    if is_word(name, "verbose") {
        Some(CliOption::Single(Single::Verbose))
    } else if is_word(name, "srcdev") {
        Some(CliOption::Single(Single::SrcDev))
    } else if is_word(name, "dstdev") {
        Some(CliOption::Listed(Listed::DstDev))
    } else if is_word(name, "buddyip") {
        Some(CliOption::Listed(Listed::BuddyIp))
    } else if is_word(name, "port") {
        Some(CliOption::Listed(Listed::Port))
    } else if is_word(name, "mip") {
        Some(CliOption::Single(Single::Mip))
    } else if is_word(name, "mport") {
        Some(CliOption::Single(Single::Mport))
    } else if is_word(name, "uport") {
        Some(CliOption::Single(Single::Uport))
    } else if is_word(name, "help") {
        Some(CliOption::Flag(Flag::Help))
    } else if is_word(name, "devices") {
        Some(CliOption::Flag(Flag::Devices))
    } else if is_word(name, "monochrome") {
        Some(CliOption::Flag(Flag::Monochrome))
    } else if is_word(name, "no-multicast") {
        Some(CliOption::Flag(Flag::NoMulticast))
    } else if is_word(name, "no-udping") {
        Some(CliOption::Flag(Flag::NoUdping))
    } else {
        None
    }
}

/// What one value of the port option does to the port list.
pub enum PortStep {
    /// The value was taken; the next value is looked at.
    Next,
    /// The value settles the list; further values are not looked at.
    Settled,
    /// The value is neither a word nor a port; the list is as it was.
    Invalid,
}

/// The port list after one value of the port option, given what number the
/// value reads as: `all` empties the list, which lets every port through;
/// `known` makes it the list of known ports; a number is added at the end.
pub open spec fn ports_after(ports: Seq<u16>, word: Seq<char>, number: Option<u16>) -> Seq<u16> {
    if reads(word, "all") {
        Seq::empty()
    } else if reads(word, "known") {
        known_ports_spec()
    } else {
        match number {
            Some(port) => ports.push(port),
            None => ports,
        }
    }
}

/// What one value of the port option leads to, given what number the value
/// reads as.
pub open spec fn port_step(word: Seq<char>, number: Option<u16>) -> PortStep {
    if reads(word, "all") || reads(word, "known") {
        PortStep::Settled
    } else if number is Some {
        PortStep::Next
    } else {
        PortStep::Invalid
    }
}

/// Applies one value of the port option, `number` being what the value
/// reads as.
pub fn apply_port_word(ports: &mut Vec<u16>, word: &str, number: Option<u16>) -> (step: PortStep)
    ensures
        final(ports)@ == ports_after(old(ports)@, word@, number),
        step == port_step(word@, number),
        step is Invalid ==> *final(ports) == *old(ports),
{
    if is_word(word, "all") {
        ports.clear();
        PortStep::Settled
    } else if is_word(word, "known") {
        *ports = known_ports();
        PortStep::Settled
    } else {
        match number {
            Some(port) => {
                ports.push(port);
                PortStep::Next
            },
            None => PortStep::Invalid,
        }
    }
}

/// Applies one value of the port option: `all`, `known`, or a port number.
pub fn add_port_word(ports: &mut Vec<u16>, word: &str) -> (step: PortStep)
    ensures
        final(ports)@ == ports_after(old(ports)@, word@, parsed_u16(word@)),
        step == port_step(word@, parsed_u16(word@)),
        step is Invalid ==> *final(ports) == *old(ports),
{
    if is_word(word, "all") || is_word(word, "known") {
        apply_port_word(ports, word, None)
    } else {
        let number: Option<u16> = parse_u16(word);
        apply_port_word(ports, word, number)
    }
}

impl Arguments {
    /// The settings before any option: nothing named, every port, both
    /// discoveries on.
    pub fn new() -> (args: Arguments)
        ensures
            args.srcdev is None,
            args.dstdev@.len() == 0,
            args.buddyip@.len() == 0,
            args.port@.len() == 0,
            args.mip is None,
            args.mport is None,
            args.uport is None,
            !args.no_multicast,
            !args.no_udping,
    {
        Arguments {
            srcdev: None,
            dstdev: Vec::new(),
            buddyip: Vec::new(),
            port: Vec::new(),
            mip: None,
            mport: None,
            uport: None,
            no_multicast: false,
            no_udping: false,
        }
    }

    /// The multicast group and port to discover peers on: the ones that were
    /// given, or else 239.1.2.3 and `MULTICAST_PORT`; none where multicast
    /// discovery is switched off.
    pub fn multicast_group(&self) -> (group: Option<(Ipv4, u16)>)
        ensures
            group is None <==> self.no_multicast,
            group is Some ==> group->Some_0.0 == (match self.mip {
                Some(ip) => ip,
                None => Ipv4 { a: 239, b: 1, c: 2, d: 3 },
            }),
            group is Some ==> group->Some_0.1 == (match self.mport {
                Some(port) => port,
                None => MULTICAST_PORT,
            }),
    {
        if self.no_multicast {
            return None;
        }
        let ip: Ipv4 = match self.mip {
            Some(ip) => ip,
            None => default_multicast_ip(),
        };
        let port: u16 = match self.mport {
            Some(port) => port,
            None => MULTICAST_PORT,
        };
        Some((ip, port))
    }

    /// The port of the subnet sweep: the one that was given, or else
    /// `UDPING_PORT`; none where the sweep is switched off.
    pub fn sweep_port(&self) -> (port: Option<u16>)
        ensures
            port == if self.no_udping {
                None
            } else {
                match self.uport {
                    Some(port) => Some(port),
                    None => Some(UDPING_PORT),
                }
            },
    {
        if self.no_udping {
            return None;
        }
        match self.uport {
            Some(port) => Some(port),
            None => Some(UDPING_PORT),
        }
    }

    /// Names the capture adapter. A name of the wrong form is handed back
    /// and nothing changes.
    pub fn set_srcdev(&mut self, name: String) -> (r: Result<(), String>)
        ensures
            r is Ok <==> is_device_name_spec(name@),
            r is Ok ==> *final(self) == (Arguments { srcdev: Some(name), ..*old(self) }),
            r is Err ==> *final(self) == *old(self) && r->Err_0 == name,
    {
        if !is_device_name(name.as_str()) {
            return Err(name);
        }
        self.srcdev = Some(name);
        Ok(())
    }

    /// Names one more tunnel adapter. A name of the wrong form is handed
    /// back and nothing changes.
    pub fn add_dstdev(&mut self, name: String) -> (r: Result<(), String>)
        ensures
            r is Ok <==> is_device_name_spec(name@),
            r is Ok ==> final(self).dstdev@ == old(self).dstdev@.push(name),
            r is Ok ==> *final(self) == (Arguments { dstdev: final(self).dstdev, ..*old(self) }),
            r is Err ==> *final(self) == *old(self) && r->Err_0 == name,
    {
        if !is_device_name(name.as_str()) {
            return Err(name);
        }
        self.dstdev.push(name);
        Ok(())
    }
}

/// The argument parser of the `lexopt` crate. Nothing of its state is
/// visible here.
#[verifier::external_type_specification]
#[verifier::external_body]
pub struct ExParser(lexopt::Parser);

/// The error of the `lexopt` crate.
#[verifier::external_type_specification]
#[verifier::external_body]
pub struct ExParserError(lexopt::Error);

/// The iterator over the values of one option, of the `lexopt` crate.
#[verifier::external_type_specification]
#[verifier::external_body]
pub struct ExValuesIter<'a>(lexopt::ValuesIter<'a>);

/// One argument as the parser hands it out.
#[derive(Debug)]
pub enum CliArg {
    /// A short option, such as `-v`.
    Short(char),
    /// A long option, such as `--verbose`, without the dashes.
    Long(String),
    /// A free-standing value.
    Value(String),
}

/// Why a command line is refused.
#[derive(Debug)]
pub enum CliError {
    /// The parser refused the command line.
    Parser(lexopt::Error),
    /// The option or free-standing value is not known.
    Unexpected(CliArg),
    /// The text is not an adapter name.
    InvalidDeviceName(String),
    /// The text is not an IPv4 address.
    InvalidAddress(String),
    /// The text is not a verbosity: a number from 0 to 255.
    InvalidVerbosity(String),
    /// The text is not a port: a number from 0 to 65535.
    InvalidPort(String),
    /// The command line does not end.
    TooManyArguments,
}

/// What the command line asks for.
#[derive(Debug)]
pub enum ParseOutcome {
    /// Run the relay with these settings.
    Run(Arguments, Logger),
    /// Print the help text and leave.
    Help,
    /// List the adapters and leave.
    Devices(Logger),
}

/// `lexopt::Parser::from_args`: a parser over the given arguments, the
/// program's name not among them. Nothing is claimed of it.
#[verifier::external_body]
fn parser_from_args(args: Vec<String>) -> (parser: lexopt::Parser) {
    lexopt::Parser::from_args(args)
}

/// `lexopt::Parser::next`: the next option or free-standing value, `None` at
/// the end of the command line. Nothing is claimed of what comes next.
#[verifier::external_body]
fn next_arg(parser: &mut lexopt::Parser) -> (r: Result<Option<CliArg>, lexopt::Error>) {
    match parser.next() {
        Ok(None) => Ok(None),
        Ok(Some(lexopt::Arg::Short(letter))) => Ok(Some(CliArg::Short(letter))),
        Ok(Some(lexopt::Arg::Long(name))) => Ok(Some(CliArg::Long(name.to_string()))),
        Ok(Some(lexopt::Arg::Value(value))) => Ok(
            Some(CliArg::Value(value.to_string_lossy().into_owned())),
        ),
        Err(error) => Err(error),
    }
}

/// `lexopt::Parser::value`, its result turned into a `String` by
/// `lexopt::ValueExt::string`: the value of the option just seen. Nothing is
/// claimed of it.
#[verifier::external_body]
fn next_value(parser: &mut lexopt::Parser) -> (r: Result<String, lexopt::Error>) {
    lexopt::ValueExt::string(parser.value()?)
}

/// `lexopt::Parser::values`: the values of the option just seen, to be taken
/// one by one. Nothing is claimed of them.
#[verifier::external_body]
fn open_values<'a>(parser: &'a mut lexopt::Parser) -> (r: Result<
    lexopt::ValuesIter<'a>,
    lexopt::Error,
>) {
    parser.values()
}

/// `Iterator::next` of `lexopt::ValuesIter`, its result turned into a
/// `String` by `lexopt::ValueExt::string`: the next value of the option,
/// `None` after the last. Nothing is claimed of it.
#[verifier::external_body]
fn values_next(values: &mut lexopt::ValuesIter<'_>) -> (r: Option<Result<String, lexopt::Error>>) {
    values.next().map(lexopt::ValueExt::string)
}

/// The most arguments that one walk looks at. No command line holds as
/// many; the bound is what makes a walk end.
pub const MAX_ARGUMENTS: usize = usize::MAX;

/// Every adapter name of the settings has the form of one.
pub open spec fn names_valid(args: Arguments) -> bool {
    &&& args.srcdev matches Some(name) ==> is_device_name_spec(name@)
    &&& forall|k: int| 0 <= k < args.dstdev@.len() ==> is_device_name_spec(#[trigger] args.dstdev@[k]@)
}

/// What an error says is true of the text that it hands back: the option is
/// not known, the name is no adapter name, the address is not dotted
/// decimal, the number does not read as one of its kind.
pub open spec fn fault_holds(error: CliError) -> bool {
    match error {
        CliError::Unexpected(arg) => option_of_spec(arg) is None,
        CliError::InvalidDeviceName(name) => !is_device_name_spec(name@),
        CliError::InvalidAddress(word) => parsed_ipv4(word@) is None,
        CliError::InvalidVerbosity(word) => parsed_u8(word@) is None,
        CliError::InvalidPort(word) => parsed_u16(word@) is None,
        CliError::Parser(_) => true,
        CliError::TooManyArguments => true,
    }
}

/// The option that an argument stands for; a free-standing value stands for
/// none.
pub open spec fn option_of_spec(arg: CliArg) -> Option<CliOption> {
    match arg {
        CliArg::Short(letter) => short_option_spec(letter),
        CliArg::Long(name) => long_option_spec(name@),
        CliArg::Value(_) => None,
    }
}

/// The option that an argument stands for; a free-standing value stands for
/// none.
pub fn option_of(arg: &CliArg) -> (option: Option<CliOption>)
    ensures
        option == option_of_spec(*arg),
{
    match arg {
        CliArg::Short(letter) => short_option(*letter),
        CliArg::Long(name) => long_option(name.as_str()),
        CliArg::Value(_) => None,
    }
}

/// What follows an option without a value.
#[derive(Clone, Copy, Debug, PartialEq, Eq, Structural)]
pub enum Flow {
    /// The walk goes on.
    Continue,
    /// The help text is asked for; the walk ends.
    Help,
    /// The adapter list is asked for; the walk ends.
    Devices,
}

/// The verbosity after a rise by `by`, which stops at 255.
pub open spec fn raised(level: u8, by: u8) -> u8 {
    if level + by > 255 {
        255
    } else {
        (level + by) as u8
    }
}

/// The verbosity that one option asks for, cut off at `MAX_VERBOSITY`.
pub open spec fn clamped(verbosity: u8) -> u8 {
    if verbosity < MAX_VERBOSITY {
        verbosity
    } else {
        MAX_VERBOSITY
    }
}

/// Applies an option without a value: the switches are set; the help and
/// the adapter list change nothing and end the walk.
pub fn apply_flag(args: &mut Arguments, logger: &mut Logger, flag: Flag) -> (flow: Flow)
    ensures
        *final(args) == (Arguments {
            no_multicast: old(args).no_multicast || flag == Flag::NoMulticast,
            no_udping: old(args).no_udping || flag == Flag::NoUdping,
            ..*old(args)
        }),
        final(logger).level() == old(logger).level(),
        final(logger).plain() == (old(logger).plain() || flag == Flag::Monochrome),
        flow == match flag {
            Flag::Help => Flow::Help,
            Flag::Devices => Flow::Devices,
            _ => Flow::Continue,
        },
{
    match flag {
        Flag::Help => Flow::Help,
        Flag::Devices => Flow::Devices,
        Flag::Monochrome => {
            logger.set_monochrome();
            Flow::Continue
        },
        Flag::NoMulticast => {
            args.no_multicast = true;
            Flow::Continue
        },
        Flag::NoUdping => {
            args.no_udping = true;
            Flow::Continue
        },
    }
}

/// The settings after an option with one value, or the fault of the value.
/// The verbosity is kept by the logger and changes no setting.
pub open spec fn single_applied(args: Arguments, option: Single, word: String) -> Result<
    Arguments,
    CliError,
> {
    match option {
        Single::Verbose => match parsed_u8(word@) {
            Some(_) => Ok(args),
            None => Err(CliError::InvalidVerbosity(word)),
        },
        Single::SrcDev => if is_device_name_spec(word@) {
            Ok(Arguments { srcdev: Some(word), ..args })
        } else {
            Err(CliError::InvalidDeviceName(word))
        },
        Single::Mip => match parsed_ipv4(word@) {
            Some(ip) => Ok(Arguments { mip: Some(ip), ..args }),
            None => Err(CliError::InvalidAddress(word)),
        },
        Single::Mport => match parsed_u16(word@) {
            Some(port) => Ok(Arguments { mport: Some(port), ..args }),
            None => Err(CliError::InvalidPort(word)),
        },
        Single::Uport => match parsed_u16(word@) {
            Some(port) => Ok(Arguments { uport: Some(port), ..args }),
            None => Err(CliError::InvalidPort(word)),
        },
    }
}

/// The verbosity after an option with one value.
pub open spec fn verbosity_after(level: u8, option: Single, word: Seq<char>) -> u8 {
    match parsed_u8(word) {
        Some(verbosity) => if option == Single::Verbose {
            raised(level, clamped(verbosity))
        } else {
            level
        },
        None => level,
    }
}

/// Applies an option with one value. A later value of the same option
/// overwrites the earlier; verbosities add up. A value that does not read as
/// what the option takes is handed back, and nothing changes.
pub fn apply_single(args: &mut Arguments, logger: &mut Logger, option: Single, word: String) -> (r:
    Result<(), CliError>)
    ensures
        r is Ok <==> single_applied(*old(args), option, word) is Ok,
        r is Ok ==> *final(args) == single_applied(*old(args), option, word)->Ok_0,
        r is Err ==> *final(args) == *old(args) && r->Err_0 == single_applied(
            *old(args),
            option,
            word,
        )->Err_0,
        final(logger).plain() == old(logger).plain(),
        final(logger).level() == verbosity_after(old(logger).level(), option, word@),
{
    match option {
        Single::Verbose => match parse_u8(word.as_str()) {
            Some(verbosity) => {
                logger.set_verbosity(clamp_verbosity(verbosity));
                Ok(())
            },
            None => Err(CliError::InvalidVerbosity(word)),
        },
        Single::SrcDev => match args.set_srcdev(word) {
            Ok(()) => Ok(()),
            Err(name) => Err(CliError::InvalidDeviceName(name)),
        },
        Single::Mip => match parse_ipv4(word.as_str()) {
            Some(ip) => {
                args.mip = Some(ip);
                Ok(())
            },
            None => Err(CliError::InvalidAddress(word)),
        },
        Single::Mport => match parse_u16(word.as_str()) {
            Some(port) => {
                args.mport = Some(port);
                Ok(())
            },
            None => Err(CliError::InvalidPort(word)),
        },
        Single::Uport => match parse_u16(word.as_str()) {
            Some(port) => {
                args.uport = Some(port);
                Ok(())
            },
            None => Err(CliError::InvalidPort(word)),
        },
    }
}

/// Whether one value of a listed option is taken, and whether further
/// values are looked at after it.
pub open spec fn listed_step(option: Listed, word: Seq<char>) -> PortStep {
    match option {
        Listed::DstDev => if is_device_name_spec(word) {
            PortStep::Next
        } else {
            PortStep::Invalid
        },
        Listed::BuddyIp => if parsed_ipv4(word) is Some {
            PortStep::Next
        } else {
            PortStep::Invalid
        },
        Listed::Port => port_step(word, parsed_u16(word)),
    }
}

/// Applies one value of an option that takes a list: a tunnel or a peer is
/// added to its list, a port word does to the port list what `ports_after`
/// says. The result tells whether further values are looked at. A value that
/// does not read as what the option takes is handed back, and nothing
/// changes.
pub fn apply_listed(args: &mut Arguments, option: Listed, word: String) -> (r: Result<
    bool,
    CliError,
>)
    ensures
        r is Err <==> listed_step(option, word@) is Invalid,
        r is Ok ==> r->Ok_0 == (listed_step(option, word@) is Next),
        r is Err ==> *final(args) == *old(args) && r->Err_0 == (match option {
            Listed::DstDev => CliError::InvalidDeviceName(word),
            Listed::BuddyIp => CliError::InvalidAddress(word),
            Listed::Port => CliError::InvalidPort(word),
        }),
        r is Ok ==> *final(args) == (Arguments {
            dstdev: final(args).dstdev,
            buddyip: final(args).buddyip,
            port: final(args).port,
            ..*old(args)
        }),
        r is Ok ==> final(args).dstdev@ == (if option == Listed::DstDev {
            old(args).dstdev@.push(word)
        } else {
            old(args).dstdev@
        }),
        r is Ok ==> final(args).buddyip@ == (if option == Listed::BuddyIp {
            old(args).buddyip@.push(parsed_ipv4(word@)->Some_0)
        } else {
            old(args).buddyip@
        }),
        r is Ok ==> final(args).port@ == (if option == Listed::Port {
            ports_after(old(args).port@, word@, parsed_u16(word@))
        } else {
            old(args).port@
        }),
{
    match option {
        Listed::DstDev => match args.add_dstdev(word) {
            Ok(()) => Ok(true),
            Err(name) => Err(CliError::InvalidDeviceName(name)),
        },
        Listed::BuddyIp => match parse_ipv4(word.as_str()) {
            Some(ip) => {
                args.buddyip.push(ip);
                Ok(true)
            },
            None => Err(CliError::InvalidAddress(word)),
        },
        Listed::Port => match add_port_word(&mut args.port, word.as_str()) {
            PortStep::Next => Ok(true),
            PortStep::Settled => Ok(false),
            PortStep::Invalid => Err(CliError::InvalidPort(word)),
        },
    }
}

/// The settings while the values of a listed option are taken: nothing but
/// the option's own list has changed, and that list has only grown at its
/// end.
pub open spec fn values_added(before: Arguments, option: Listed, after: Arguments) -> bool {
    &&& after == (Arguments {
        dstdev: after.dstdev,
        buddyip: after.buddyip,
        port: after.port,
        ..before
    })
    &&& before.dstdev@.is_prefix_of(after.dstdev@)
    &&& before.buddyip@.is_prefix_of(after.buddyip@)
    &&& before.port@.is_prefix_of(after.port@)
    &&& option != Listed::DstDev ==> after.dstdev@ == before.dstdev@
    &&& option != Listed::BuddyIp ==> after.buddyip@ == before.buddyip@
    &&& option != Listed::Port ==> after.port@ == before.port@
}

/// The settings after the values of a listed option were taken, whatever
/// the values were: nothing but the option's own list has changed; tunnels
/// and peers were added at the end of their lists; ports were added at the
/// end of the port list, unless a word settled it, which leaves it empty or
/// makes it the list of known ports.
pub open spec fn values_taken(before: Arguments, option: Listed, after: Arguments) -> bool {
    ||| values_added(before, option, after)
    ||| {
        &&& option == Listed::Port
        &&& values_added(before, option, Arguments { port: before.port, ..after })
        &&& (after.port@ == Seq::<u16>::empty() || after.port@ == known_ports_spec())
    }
}

/// The faults that the values of a listed option can have: the parser's
/// own, and the one of a value that does not read as what the option takes.
pub open spec fn fault_fits(option: Listed, error: CliError) -> bool {
    match error {
        CliError::Parser(_) => true,
        CliError::TooManyArguments => true,
        CliError::InvalidDeviceName(_) => option == Listed::DstDev,
        CliError::InvalidAddress(_) => option == Listed::BuddyIp,
        CliError::InvalidPort(_) => option == Listed::Port,
        CliError::InvalidVerbosity(_) => false,
        CliError::Unexpected(_) => false,
    }
}

/// Takes the values of an option that takes a list, one by one, until the
/// parser has no more or one of them settles the list. The first value that
/// does not read as what the option takes is reported, and the values
/// behind it are left alone. Which values there are is the parser's word;
/// what they can do to the settings is `values_taken`.
fn take_values(parser: &mut lexopt::Parser, args: &mut Arguments, option: Listed) -> (r: Result<
    (),
    CliError,
>)
    requires
        names_valid(*old(args)),
    ensures
        names_valid(*final(args)),
        values_taken(*old(args), option, *final(args)),
        r is Err ==> fault_holds(r->Err_0) && fault_fits(option, r->Err_0),
        r is Err ==> values_added(*old(args), option, *final(args)),
{
    let mut values = match open_values(parser) {
        Ok(values) => values,
        Err(error) => {
            return Err(CliError::Parser(error));
        },
    };
    let mut left: usize = MAX_ARGUMENTS;
    while left > 0
        invariant
            names_valid(*args),
            values_added(*old(args), option, *args),
        decreases left,
    {
        left = left - 1;
        let word: String = match values_next(&mut values) {
            None => {
                return Ok(());
            },
            Some(Ok(word)) => word,
            Some(Err(error)) => {
                return Err(CliError::Parser(error));
            },
        };
        let ghost before = *args;
        match apply_listed(args, option, word) {
            Ok(more) => {
                proof {
                    if more {
                        assert(values_added(*old(args), option, *args));
                    } else {
                        assert(option == Listed::Port);
                        assert(values_added(
                            *old(args),
                            option,
                            Arguments { port: old(args).port, ..*args },
                        ));
                    }
                }
                assert(names_valid(*args)) by {
                    assert forall|k: int| 0 <= k < args.dstdev@.len() implies is_device_name_spec(
                        #[trigger] args.dstdev@[k]@,
                    ) by {
                        if k < before.dstdev@.len() {
                            assert(args.dstdev@[k] == before.dstdev@[k]);
                        }
                    }
                }
                if !more {
                    return Ok(());
                }
            },
            Err(error) => {
                return Err(error);
            },
        }
    }
    Err(CliError::TooManyArguments)
}

/// Reads the command line, the program's name left out. The options are
/// taken in order, each with its values; the first fault ends the walk, and
/// so do the help and the adapter list. What an option and its values do to
/// the settings is what `apply_flag`, `apply_single` and `apply_listed` say;
/// which options and values the command line holds is the parser's word.
pub fn parse_args(args: Vec<String>) -> (r: Result<ParseOutcome, CliError>)
    ensures
        r matches Ok(ParseOutcome::Run(parsed, logger)) ==> names_valid(parsed) && logger.level()
            >= BASE_VERBOSITY,
        r matches Ok(ParseOutcome::Devices(logger)) ==> logger.level() >= BASE_VERBOSITY,
        r is Err ==> fault_holds(r->Err_0),
{
    let mut parser = parser_from_args(args);
    let mut parsed = Arguments::new();
    let mut logger = Logger::new();
    let mut left: usize = MAX_ARGUMENTS;
    while left > 0
        invariant
            names_valid(parsed),
            logger.level() >= BASE_VERBOSITY,
        decreases left,
    {
        left = left - 1;
        let arg: CliArg = match next_arg(&mut parser) {
            Ok(Some(arg)) => arg,
            Ok(None) => {
                return Ok(ParseOutcome::Run(parsed, logger));
            },
            Err(error) => {
                return Err(CliError::Parser(error));
            },
        };
        let option: CliOption = match option_of(&arg) {
            Some(option) => option,
            None => {
                return Err(CliError::Unexpected(arg));
            },
        };
        match option {
            CliOption::Flag(flag) => match apply_flag(&mut parsed, &mut logger, flag) {
                Flow::Continue => {},
                Flow::Help => {
                    return Ok(ParseOutcome::Help);
                },
                Flow::Devices => {
                    return Ok(ParseOutcome::Devices(logger));
                },
            },
            CliOption::Single(single) => {
                let word: String = match next_value(&mut parser) {
                    Ok(word) => word,
                    Err(error) => {
                        return Err(CliError::Parser(error));
                    },
                };
                match apply_single(&mut parsed, &mut logger, single, word) {
                    Ok(()) => {},
                    Err(error) => {
                        return Err(error);
                    },
                }
            },
            CliOption::Listed(listed) => match take_values(&mut parser, &mut parsed, listed) {
                Ok(()) => {},
                Err(error) => {
                    return Err(error);
                },
            },
        }
    }
    Err(CliError::TooManyArguments)
}

} // verus!
