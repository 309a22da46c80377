use vpnparty::cli::{parse_args, Arguments, CliArg, CliError, ParseOutcome};
use vpnparty::logger::{Level, Logger};
use vpnparty::net::Ipv4;

const SRC: &str = "\\Device\\NPF_{D0B8AF5E-B11D-4C2A-9F33-0123456789AB}";
const DST1: &str = "\\Device\\NPF_{CFB8AF5E-A00C-4C2A-9F33-0123456789AB}";
const DST2: &str = "\\Device\\NPF_{E1C9B06F-C22E-4C2A-9F33-0123456789AB}";

fn words(line: &[&str]) -> Vec<String> {
    line.iter().map(|w| w.to_string()).collect()
}

fn run(line: &[&str]) -> (Arguments, Logger) {
    match parse_args(words(line)) {
        Ok(ParseOutcome::Run(args, logger)) => (args, logger),
        other => panic!("unexpected {:?}", other),
    }
}

#[test]
fn empty_command_line() {
    let (args, logger) = run(&[]);
    assert!(args.srcdev.is_none());
    assert!(args.dstdev.is_empty());
    assert!(args.buddyip.is_empty());
    assert!(args.port.is_empty());
    assert!(args.mip.is_none() && args.mport.is_none() && args.uport.is_none());
    assert!(!args.no_multicast && !args.no_udping);
    assert_eq!(logger.verbosity(), 3);
    assert!(!logger.is_monochrome());
}

#[test]
fn full_command_line() {
    let (args, logger) = run(&[
        "-v", "2", "--srcdev", SRC, "-d", DST1, DST2, "--buddyip", "10.2.0.5", "10.2.0.6", "-p",
        "4549", "6112", "--mip", "239.240.241.242", "--mport", "61111", "--uport=61112",
        "--monochrome", "--no-multicast", "--no-udping",
    ]);
    assert_eq!(args.srcdev, Some(SRC.to_string()));
    assert_eq!(args.dstdev, vec![DST1.to_string(), DST2.to_string()]);
    assert_eq!(args.buddyip, vec![Ipv4::new(10, 2, 0, 5), Ipv4::new(10, 2, 0, 6)]);
    assert_eq!(args.port, vec![4549, 6112]);
    assert_eq!(args.mip, Some(Ipv4::new(239, 240, 241, 242)));
    assert_eq!(args.mport, Some(61111));
    assert_eq!(args.uport, Some(61112));
    assert!(args.no_multicast && args.no_udping);
    assert_eq!(logger.verbosity(), 5);
    assert!(logger.shows(Level::Debug));
    assert!(!logger.shows(Level::Trace));
    assert!(logger.is_monochrome());
}

#[test]
fn verbosity_is_cut_off_and_added() {
    assert_eq!(run(&["-v", "9"]).1.verbosity(), 6);
    assert_eq!(run(&["-v", "1", "--verbose", "1"]).1.verbosity(), 5);
    assert_eq!(run(&["-v3"]).1.verbosity(), 6);
    assert!(matches!(
        parse_args(words(&["-v", "256"])),
        Err(CliError::InvalidVerbosity(w)) if w == "256"
    ));
    assert!(matches!(parse_args(words(&["-v", "x"])), Err(CliError::InvalidVerbosity(_))));
}

#[test]
fn port_words_settle_the_list() {
    assert_eq!(run(&["-p", "known"]).0.port, vec![4549, 6112, 42801]);
    assert_eq!(run(&["-p", "1", "2", "all"]).0.port, Vec::<u16>::new());
    assert_eq!(run(&["-p", "1", "-p", "2"]).0.port, vec![1, 2]);
    assert_eq!(run(&["-p", "7", "known", "-p", "9"]).0.port, vec![4549, 6112, 42801, 9]);
    // What follows the settling word is no longer a value of the option.
    assert!(matches!(
        parse_args(words(&["-p", "all", "123"])),
        Err(CliError::Unexpected(CliArg::Value(v))) if v == "123"
    ));
    // A value joined by `=` stands alone.
    assert!(matches!(
        parse_args(words(&["--port=80", "443"])),
        Err(CliError::Unexpected(CliArg::Value(v))) if v == "443"
    ));
    assert!(matches!(
        parse_args(words(&["-p", "80", "http"])),
        Err(CliError::InvalidPort(w)) if w == "http"
    ));
    assert!(matches!(parse_args(words(&["-p", "65536"])), Err(CliError::InvalidPort(_))));
}

#[test]
fn help_and_devices_end_the_walk() {
    assert!(matches!(parse_args(words(&["--help", "--bogus"])), Ok(ParseOutcome::Help)));
    assert!(matches!(parse_args(words(&["-h"])), Ok(ParseOutcome::Help)));
    match parse_args(words(&["--monochrome", "--devices", "--bogus"])) {
        Ok(ParseOutcome::Devices(logger)) => assert!(logger.is_monochrome()),
        other => panic!("unexpected {:?}", other),
    }
    match parse_args(words(&["--devices", "--monochrome"])) {
        Ok(ParseOutcome::Devices(logger)) => assert!(!logger.is_monochrome()),
        other => panic!("unexpected {:?}", other),
    }
}

#[test]
fn unknown_arguments_are_refused() {
    assert!(matches!(
        parse_args(words(&["--bogus"])),
        Err(CliError::Unexpected(CliArg::Long(n))) if n == "bogus"
    ));
    assert!(matches!(
        parse_args(words(&["-x"])),
        Err(CliError::Unexpected(CliArg::Short('x')))
    ));
    assert!(matches!(
        parse_args(words(&["stray"])),
        Err(CliError::Unexpected(CliArg::Value(v))) if v == "stray"
    ));
    assert!(matches!(
        parse_args(words(&["--no-udping", "--mip"])),
        Err(CliError::Parser(_))
    ));
    assert!(matches!(parse_args(words(&["-b"])), Err(CliError::Parser(_))));
    assert!(matches!(parse_args(words(&["--monochrome=yes"])), Err(CliError::Parser(_))));
}

#[test]
fn values_are_checked() {
    assert!(matches!(
        parse_args(words(&["-s", "eth0"])),
        Err(CliError::InvalidDeviceName(n)) if n == "eth0"
    ));
    assert!(matches!(
        parse_args(words(&["-d", DST1, "wg0"])),
        Err(CliError::InvalidDeviceName(n)) if n == "wg0"
    ));
    assert!(matches!(
        parse_args(words(&["-b", "10.2.0.5", "10.2.0"])),
        Err(CliError::InvalidAddress(w)) if w == "10.2.0"
    ));
    assert!(matches!(
        parse_args(words(&["--mip", "239.1.2.256"])),
        Err(CliError::InvalidAddress(_))
    ));
    assert!(matches!(
        parse_args(words(&["--mport", "70000"])),
        Err(CliError::InvalidPort(w)) if w == "70000"
    ));
    assert!(matches!(parse_args(words(&["--uport", ""])), Err(CliError::InvalidPort(_))));
}

#[test]
fn values_end_at_the_next_option() {
    let (args, _) = run(&["-b", "10.2.0.5", "--no-udping", "-b", "10.2.0.6"]);
    assert_eq!(args.buddyip, vec![Ipv4::new(10, 2, 0, 5), Ipv4::new(10, 2, 0, 6)]);
    assert!(args.no_udping);
    let (later, _) = run(&["--mport", "1", "--mport", "2", "-s", SRC, "-s", DST1]);
    assert_eq!(later.mport, Some(2));
    assert_eq!(later.srcdev, Some(DST1.to_string()));
}
