use vpnparty::cli::{
    add_port_word, apply_flag, apply_listed, apply_port_word, apply_single, clamp_verbosity,
    is_device_name, is_word, known_ports, long_option, option_of, parse_u16, parse_u8,
    short_option, Arguments, CliArg, CliError, CliOption, Flag, Flow, Listed, PortStep, Single,
    DEV_NAME_LEN, MAX_VERBOSITY,
};
use vpnparty::logger::Logger;
use vpnparty::net::Ipv4;

const NAME: &str = "\\Device\\NPF_{D0B8AF5E-B11D-4C2A-9F33-0123456789AB}";

#[test]
fn device_names() {
    assert_eq!(NAME.len(), 50);
    assert_eq!(DEV_NAME_LEN, 50);
    assert!(is_device_name(NAME));
    assert!(!is_device_name(""));
    assert!(!is_device_name("\\Device\\NPF_{}"));
    assert!(!is_device_name(&NAME.replace('}', ")")));
    assert!(!is_device_name(&NAME.replace("NPF", "npf")));
    assert!(!is_device_name(&format!("{}}}", NAME)));
    assert!(!is_device_name(&NAME[1..]));
}

#[test]
fn verbosity_is_cut_off() {
    assert_eq!(MAX_VERBOSITY, 3);
    assert_eq!(clamp_verbosity(0), 0);
    assert_eq!(clamp_verbosity(2), 2);
    assert_eq!(clamp_verbosity(3), 3);
    assert_eq!(clamp_verbosity(4), 3);
    assert_eq!(clamp_verbosity(255), 3);
}

#[test]
fn short_options() {
    assert_eq!(short_option('v'), Some(CliOption::Single(Single::Verbose)));
    assert_eq!(short_option('s'), Some(CliOption::Single(Single::SrcDev)));
    assert_eq!(short_option('d'), Some(CliOption::Listed(Listed::DstDev)));
    assert_eq!(short_option('b'), Some(CliOption::Listed(Listed::BuddyIp)));
    assert_eq!(short_option('p'), Some(CliOption::Listed(Listed::Port)));
    assert_eq!(short_option('h'), Some(CliOption::Flag(Flag::Help)));
    assert_eq!(short_option('x'), None);
    assert_eq!(short_option('V'), None);
}

#[test]
fn long_options() {
    assert_eq!(long_option("verbose"), Some(CliOption::Single(Single::Verbose)));
    assert_eq!(long_option("srcdev"), Some(CliOption::Single(Single::SrcDev)));
    assert_eq!(long_option("dstdev"), Some(CliOption::Listed(Listed::DstDev)));
    assert_eq!(long_option("buddyip"), Some(CliOption::Listed(Listed::BuddyIp)));
    assert_eq!(long_option("port"), Some(CliOption::Listed(Listed::Port)));
    assert_eq!(long_option("mip"), Some(CliOption::Single(Single::Mip)));
    assert_eq!(long_option("mport"), Some(CliOption::Single(Single::Mport)));
    assert_eq!(long_option("uport"), Some(CliOption::Single(Single::Uport)));
    assert_eq!(long_option("help"), Some(CliOption::Flag(Flag::Help)));
    assert_eq!(long_option("devices"), Some(CliOption::Flag(Flag::Devices)));
    assert_eq!(long_option("monochrome"), Some(CliOption::Flag(Flag::Monochrome)));
    assert_eq!(long_option("no-multicast"), Some(CliOption::Flag(Flag::NoMulticast)));
    assert_eq!(long_option("no-udping"), Some(CliOption::Flag(Flag::NoUdping)));
    assert_eq!(long_option("version"), None);
    assert_eq!(long_option("Verbose"), None);
    assert_eq!(long_option(""), None);
    assert!(is_word("all", "all"));
    assert!(!is_word("al", "all"));
}

#[test]
fn known_port_list() {
    assert_eq!(known_ports(), vec![4549, 6112, 42801]);
}

#[test]
fn port_words() {
    let mut ports: Vec<u16> = Vec::new();
    assert!(matches!(add_port_word(&mut ports, "4549"), PortStep::Next));
    assert!(matches!(add_port_word(&mut ports, "6112"), PortStep::Next));
    assert_eq!(ports, vec![4549, 6112]);
    assert!(matches!(add_port_word(&mut ports, "65536"), PortStep::Invalid));
    assert!(matches!(add_port_word(&mut ports, "port"), PortStep::Invalid));
    assert!(matches!(add_port_word(&mut ports, ""), PortStep::Invalid));
    assert!(matches!(add_port_word(&mut ports, "-1"), PortStep::Invalid));
    assert_eq!(ports, vec![4549, 6112]);
    assert!(matches!(add_port_word(&mut ports, "known"), PortStep::Settled));
    assert_eq!(ports, vec![4549, 6112, 42801]);
    assert!(matches!(add_port_word(&mut ports, "0"), PortStep::Next));
    assert!(matches!(add_port_word(&mut ports, "65535"), PortStep::Next));
    assert_eq!(ports, vec![4549, 6112, 42801, 0, 65535]);
    assert!(matches!(add_port_word(&mut ports, "all"), PortStep::Settled));
    assert!(ports.is_empty());
}

#[test]
fn port_word_with_a_given_reading() {
    let mut ports: Vec<u16> = vec![1];
    assert!(matches!(apply_port_word(&mut ports, "x", Some(7)), PortStep::Next));
    assert_eq!(ports, vec![1, 7]);
    assert!(matches!(apply_port_word(&mut ports, "x", None), PortStep::Invalid));
    assert_eq!(ports, vec![1, 7]);
    assert!(matches!(apply_port_word(&mut ports, "all", Some(7)), PortStep::Settled));
    assert!(ports.is_empty());
    assert!(matches!(apply_port_word(&mut ports, "known", None), PortStep::Settled));
    assert_eq!(ports, vec![4549, 6112, 42801]);
}

#[test]
fn fresh_arguments() {
    let args = Arguments::new();
    assert!(args.srcdev.is_none());
    assert!(args.dstdev.is_empty());
    assert!(args.buddyip.is_empty());
    assert!(args.port.is_empty());
    assert!(args.mip.is_none());
    assert!(args.mport.is_none());
    assert!(args.uport.is_none());
    assert!(!args.no_multicast);
    assert!(!args.no_udping);
}

#[test]
fn adapter_names_are_checked() {
    let mut args = Arguments::new();
    assert_eq!(args.set_srcdev("eth0".to_string()), Err("eth0".to_string()));
    assert!(args.srcdev.is_none());
    assert_eq!(args.set_srcdev(NAME.to_string()), Ok(()));
    assert_eq!(args.srcdev, Some(NAME.to_string()));
    assert_eq!(args.add_dstdev("wg0".to_string()), Err("wg0".to_string()));
    assert!(args.dstdev.is_empty());
    assert_eq!(args.add_dstdev(NAME.to_string()), Ok(()));
    assert_eq!(args.add_dstdev(NAME.to_string()), Ok(()));
    assert_eq!(args.dstdev, vec![NAME.to_string(), NAME.to_string()]);
}

#[test]
fn numbers_are_read() {
    assert_eq!(parse_u16("6112"), Some(6112));
    assert_eq!(parse_u16("+6112"), Some(6112));
    assert_eq!(parse_u16("0"), Some(0));
    assert_eq!(parse_u16("65535"), Some(65535));
    assert_eq!(parse_u16("65536"), None);
    assert_eq!(parse_u16("0065535"), Some(65535));
    assert_eq!(parse_u8("255"), Some(255));
    assert_eq!(parse_u8("256"), None);
    assert_eq!(parse_u8("+7"), Some(7));
    assert_eq!(parse_u8(""), None);
    assert_eq!(parse_u8("+"), None);
}

#[test]
fn numbers_are_read_as_the_standard_library_reads_them() {
    for text in [
        "", "+", "0", "+0", "007", "255", "256", "999", "65535", "65536", "+65535", "-1", "-0",
        " 1", "1 ", "1_0", "12a", "a12", "99999999999999999999", "0000000000000000000000001",
        "++1", "+-1", "1+", "0x10", "1.0", "\u{661}", "4294967296", "655350", "42801",
    ] {
        assert_eq!(parse_u16(text), text.parse::<u16>().ok(), "{:?}", text);
        assert_eq!(parse_u8(text), text.parse::<u8>().ok(), "{:?}", text);
    }
}

#[test]
fn arguments_stand_for_options() {
    assert_eq!(option_of(&CliArg::Short('p')), Some(CliOption::Listed(Listed::Port)));
    assert_eq!(
        option_of(&CliArg::Long("no-udping".to_string())),
        Some(CliOption::Flag(Flag::NoUdping))
    );
    assert_eq!(option_of(&CliArg::Long("p".to_string())), None);
    assert_eq!(option_of(&CliArg::Value("port".to_string())), None);
}

#[test]
fn flags() {
    let mut args = Arguments::new();
    let mut logger = Logger::new();
    assert_eq!(apply_flag(&mut args, &mut logger, Flag::Monochrome), Flow::Continue);
    assert!(logger.is_monochrome());
    assert!(!args.no_multicast && !args.no_udping);
    assert_eq!(apply_flag(&mut args, &mut logger, Flag::NoMulticast), Flow::Continue);
    assert!(args.no_multicast && !args.no_udping);
    assert_eq!(apply_flag(&mut args, &mut logger, Flag::NoUdping), Flow::Continue);
    assert!(args.no_multicast && args.no_udping);
    assert_eq!(apply_flag(&mut args, &mut logger, Flag::Help), Flow::Help);
    assert_eq!(apply_flag(&mut args, &mut logger, Flag::Devices), Flow::Devices);
    assert!(args.no_multicast && args.no_udping && logger.is_monochrome());
    assert_eq!(logger.verbosity(), 3);
}

#[test]
fn single_values() {
    let mut args = Arguments::new();
    let mut logger = Logger::new();
    assert!(apply_single(&mut args, &mut logger, Single::Verbose, "2".to_string()).is_ok());
    assert_eq!(logger.verbosity(), 5);
    assert!(apply_single(&mut args, &mut logger, Single::Verbose, "200".to_string()).is_ok());
    assert_eq!(logger.verbosity(), 8);
    assert!(matches!(
        apply_single(&mut args, &mut logger, Single::Verbose, "300".to_string()),
        Err(CliError::InvalidVerbosity(w)) if w == "300"
    ));
    assert_eq!(logger.verbosity(), 8);
    assert!(apply_single(&mut args, &mut logger, Single::SrcDev, NAME.to_string()).is_ok());
    assert_eq!(args.srcdev, Some(NAME.to_string()));
    assert!(matches!(
        apply_single(&mut args, &mut logger, Single::SrcDev, "eth0".to_string()),
        Err(CliError::InvalidDeviceName(n)) if n == "eth0"
    ));
    assert_eq!(args.srcdev, Some(NAME.to_string()));
    assert!(apply_single(&mut args, &mut logger, Single::Mip, "239.9.9.9".to_string()).is_ok());
    assert_eq!(args.mip, Some(Ipv4::new(239, 9, 9, 9)));
    assert!(matches!(
        apply_single(&mut args, &mut logger, Single::Mip, "239.9.9".to_string()),
        Err(CliError::InvalidAddress(w)) if w == "239.9.9"
    ));
    assert_eq!(args.mip, Some(Ipv4::new(239, 9, 9, 9)));
    assert!(apply_single(&mut args, &mut logger, Single::Mport, "61111".to_string()).is_ok());
    assert!(apply_single(&mut args, &mut logger, Single::Uport, "61112".to_string()).is_ok());
    assert_eq!((args.mport, args.uport), (Some(61111), Some(61112)));
    assert!(matches!(
        apply_single(&mut args, &mut logger, Single::Uport, "known".to_string()),
        Err(CliError::InvalidPort(w)) if w == "known"
    ));
    assert_eq!((args.mport, args.uport), (Some(61111), Some(61112)));
    assert_eq!(logger.verbosity(), 8);
    assert!(!logger.is_monochrome());
}

#[test]
fn listed_values() {
    let mut args = Arguments::new();
    assert!(matches!(apply_listed(&mut args, Listed::DstDev, NAME.to_string()), Ok(true)));
    assert!(matches!(
        apply_listed(&mut args, Listed::DstDev, "wg0".to_string()),
        Err(CliError::InvalidDeviceName(n)) if n == "wg0"
    ));
    assert_eq!(args.dstdev, vec![NAME.to_string()]);
    assert!(matches!(apply_listed(&mut args, Listed::BuddyIp, "10.2.0.5".to_string()), Ok(true)));
    assert!(matches!(apply_listed(&mut args, Listed::BuddyIp, "10.2.0.5".to_string()), Ok(true)));
    assert!(matches!(
        apply_listed(&mut args, Listed::BuddyIp, "10.2.0.5/24".to_string()),
        Err(CliError::InvalidAddress(w)) if w == "10.2.0.5/24"
    ));
    assert_eq!(args.buddyip, vec![Ipv4::new(10, 2, 0, 5), Ipv4::new(10, 2, 0, 5)]);
    assert!(matches!(apply_listed(&mut args, Listed::Port, "6112".to_string()), Ok(true)));
    assert!(matches!(apply_listed(&mut args, Listed::Port, "known".to_string()), Ok(false)));
    assert_eq!(args.port, vec![4549, 6112, 42801]);
    assert!(matches!(
        apply_listed(&mut args, Listed::Port, "some".to_string()),
        Err(CliError::InvalidPort(w)) if w == "some"
    ));
    assert_eq!(args.port, vec![4549, 6112, 42801]);
    assert!(matches!(apply_listed(&mut args, Listed::Port, "all".to_string()), Ok(false)));
    assert!(args.port.is_empty());
    assert_eq!(args.dstdev.len(), 1);
    assert_eq!(args.buddyip.len(), 2);
}
