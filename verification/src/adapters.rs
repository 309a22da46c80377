//! Choice of the network adapters: which adapter delivers the broadcast
//! traffic and which ones are tunnels, by the user's word or, failing that,
//! by what the adapters' descriptions mention.

use crate::directions::ParsedDevices;
use crate::net::HostAddr;
use crate::text::{bytes_of, contains_text, occurs_in};
use vstd::prelude::*;

verus! {

/// A network adapter as the system lists it.
#[derive(Debug)]
pub struct Adapter {
    pub name: String,
    pub desc: Option<String>,
    pub up: bool,
    pub loopback: bool,
    pub connected: bool,
    pub addresses: Vec<HostAddr>,
}

/// The adapters chosen by what their descriptions mention. Each adapter is
/// given by its index in the list that was examined.
#[derive(Debug)]
pub struct PromisingDevices {
    pub src: Option<usize>,
    pub dst: Vec<usize>,
    pub virt: Vec<usize>,
}

/// The adapters to run on, each by its index in the list that was examined.
#[derive(Debug)]
pub struct Selection {
    pub src: usize,
    pub dst: Vec<usize>,
}

/// Why no adapters could be chosen.
#[derive(Debug)]
pub enum DeviceError {
    /// No adapter was named for the capture and none looks like hardware.
    NoHardwareAdapter,
    /// The adapter named for the capture is not in the list.
    SourceNotFound,
    /// No tunnel was named and no adapter looks like one.
    NoVpnAdapter,
    /// Not every named tunnel is in the list; these are the ones found.
    VpnNotFound(Vec<usize>),
    /// The chosen adapter at this index has no address.
    NoAddress(usize),
}

/// What `DeviceError` says, with indices as mathematical integers.
pub enum DeviceFault {
    NoHardwareAdapter,
    SourceNotFound,
    NoVpnAdapter,
    VpnNotFound(Seq<usize>),
    NoAddress(usize),
}

impl View for DeviceError {
    type V = DeviceFault;

    open spec fn view(&self) -> DeviceFault {
        match self {
            DeviceError::NoHardwareAdapter => DeviceFault::NoHardwareAdapter,
            DeviceError::SourceNotFound => DeviceFault::SourceNotFound,
            DeviceError::NoVpnAdapter => DeviceFault::NoVpnAdapter,
            DeviceError::VpnNotFound(found) => DeviceFault::VpnNotFound(found@),
            DeviceError::NoAddress(i) => DeviceFault::NoAddress(*i),
        }
    }
}

/// The bytes of an adapter's description; none where it has no description.
pub open spec fn desc_bytes(desc: Option<String>) -> Seq<u8> {
    match desc {
        Some(text) => bytes_of(text@),
        None => Seq::empty(),
    }
}

/// Whether a description mentions one of the patterns.
pub open spec fn mentions(desc: Option<String>, patterns: Seq<&'static str>) -> bool {
    exists|k: int|
        0 <= k < patterns.len() && occurs_in(bytes_of((#[trigger] patterns[k])@), desc_bytes(desc))
}

/// An adapter is worth a look where it is up, connected, not the loopback,
/// and has an address.
pub open spec fn is_promising_spec(a: Adapter) -> bool {
    a.up && !a.loopback && a.addresses@.len() > 0 && a.connected
}

/// The indices at which `flags` is set, in rising order.
pub open spec fn picked(flags: Seq<bool>) -> Seq<usize>
    decreases flags.len(),
{
    if flags.len() == 0 {
        Seq::empty()
    } else if flags.last() {
        picked(flags.drop_last()).push((flags.len() - 1) as usize)
    } else {
        picked(flags.drop_last())
    }
}

/// The first index at which `flags` is set, if there is one.
pub open spec fn first_set(flags: Seq<bool>) -> Option<usize>
    decreases flags.len(),
{
    if flags.len() == 0 {
        None
    } else if first_set(flags.drop_last()) is Some {
        first_set(flags.drop_last())
    } else if flags.last() {
        Some((flags.len() - 1) as usize)
    } else {
        None
    }
}

/// `first_set` gives an index at which the flag is set and before which it
/// is not; it gives none only where the flag is set nowhere.
pub proof fn lemma_first_set(flags: Seq<bool>)
    requires
        flags.len() <= usize::MAX,
    ensures
        match first_set(flags) {
            Some(i) => i < flags.len() && flags[i as int] && forall|j: int|
                0 <= j < i ==> !flags[j],
            None => forall|j: int| 0 <= j < flags.len() ==> !flags[j],
        },
    decreases flags.len(),
{
    if flags.len() > 0 {
        lemma_first_set(flags.drop_last());
        let rest = flags.drop_last();
        assert(forall|j: int| 0 <= j < rest.len() ==> rest[j] == flags[j]);
    }
}

/// What is found among the first flags is found among all of them.
proof fn lemma_first_set_stays(flags: Seq<bool>, n: int)
    requires
        0 <= n <= flags.len(),
        first_set(flags.take(n)) is Some,
    ensures
        first_set(flags) == first_set(flags.take(n)),
    decreases flags.len() - n,
{
    if n < flags.len() {
        assert(flags.take(n + 1).drop_last() =~= flags.take(n));
        lemma_first_set_stays(flags, n + 1);
    } else {
        assert(flags.take(n) =~= flags);
    }
}

/// What is picked is an index at which the flag is set, and every such
/// index is picked.
pub proof fn lemma_picked_members(flags: Seq<bool>, i: usize)
    requires
        flags.len() <= usize::MAX,
    ensures
        picked(flags).contains(i) <==> (i < flags.len() && flags[i as int]),
        picked(flags).len() <= flags.len(),
    decreases flags.len(),
{
    if flags.len() > 0 {
        let rest = picked(flags.drop_last());
        let top: usize = (flags.len() - 1) as usize;
        lemma_picked_members(flags.drop_last(), i);
        if flags.last() {
            let out = rest.push(top);
            assert(out[rest.len() as int] == top);
            if rest.contains(i) {
                let k = choose|k: int| 0 <= k < rest.len() && rest[k] == i;
                assert(out[k] == i);
            }
            if out.contains(i) && i != top {
                let k = choose|k: int| 0 <= k < out.len() && out[k] == i;
                assert(rest[k] == i);
            }
        }
    }
}

/// The indices at which `flags` is set, in rising order.
pub fn pick(flags: &[bool]) -> (chosen: Vec<usize>)
    ensures
        chosen@ == picked(flags@),
{
    let mut chosen: Vec<usize> = Vec::new();
    let mut i: usize = 0;
    assert(flags@.take(0) =~= Seq::<bool>::empty());
    while i < flags.len()
        invariant
            i <= flags@.len(),
            chosen@ == picked(flags@.take(i as int)),
        decreases flags@.len() - i,
    {
        proof {
            assert(flags@.take(i as int + 1).drop_last() =~= flags@.take(i as int));
            assert(flags@.take(i as int + 1).last() == flags@[i as int]);
        }
        if flags[i] {
            chosen.push(i);
        }
        i = i + 1;
    }
    assert(flags@.take(flags@.len() as int) =~= flags@);
    chosen
}

/// The first index at which `flags` is set.
pub fn first(flags: &[bool]) -> (found: Option<usize>)
    ensures
        found == first_set(flags@),
{
    let mut i: usize = 0;
    assert(flags@.take(0) =~= Seq::<bool>::empty());
    while i < flags.len()
        invariant
            i <= flags@.len(),
            first_set(flags@.take(i as int)) is None,
        decreases flags@.len() - i,
    {
        proof {
            assert(flags@.take(i as int + 1).drop_last() =~= flags@.take(i as int));
            assert(flags@.take(i as int + 1).last() == flags@[i as int]);
        }
        if flags[i] {
            proof {
                lemma_first_set_stays(flags@, i as int + 1);
            }
            return Some(i);
        }
        i = i + 1;
    }
    assert(flags@.take(flags@.len() as int) =~= flags@);
    None
}

/// The words that mark a virtual adapter.
pub open spec fn virt_names_spec() -> Seq<&'static str> {
    seq!["Virtual"]
}

/// The words that mark a tunnel.
pub open spec fn vpn_names_spec() -> Seq<&'static str> {
    seq!["WireGuard", "OpenVPN"]
}

/// The words that mark a hardware adapter.
pub open spec fn hw_names_spec() -> Seq<&'static str> {
    seq![
        "Broadcom",
        "Intel(R)",
        "MediaTek",
        "Qualcomm",
        "Realtek",
        "AC1200",
        "ASIX",
        "Atheros",
        "Chelsio",
        "D-Link",
        "Dell",
        "JMicron",
        "Marvell",
        "Mellanox",
        "QLogic",
        "Ralink",
    ]
}

/// The words that mark a virtual adapter.
pub fn virt_names() -> (names: Vec<&'static str>)
    ensures
        names@ == virt_names_spec(),
{
    let names: Vec<&'static str> = vec!["Virtual"];
    assert(names@ =~= virt_names_spec());
    names
}

/// The words that mark a tunnel.
pub fn vpn_names() -> (names: Vec<&'static str>)
    ensures
        names@ == vpn_names_spec(),
{
    let names: Vec<&'static str> = vec!["WireGuard", "OpenVPN"];
    assert(names@ =~= vpn_names_spec());
    names
}

/// The words that mark a hardware adapter, the most common first.
pub fn hw_names() -> (names: Vec<&'static str>)
    ensures
        names@ == hw_names_spec(),
{
    let names: Vec<&'static str> = vec![
        "Broadcom",
        "Intel(R)",
        "MediaTek",
        "Qualcomm",
        "Realtek",
        "AC1200",
        "ASIX",
        "Atheros",
        "Chelsio",
        "D-Link",
        "Dell",
        "JMicron",
        "Marvell",
        "Mellanox",
        "QLogic",
        "Ralink",
    ];
    assert(names@ =~= hw_names_spec());
    names
}

/// Whether the adapter is up, connected, not the loopback, and has an
/// address.
pub fn is_promising(a: &Adapter) -> (promising: bool)
    ensures
        promising == is_promising_spec(*a),
{
    a.up && !a.loopback && a.addresses.len() > 0 && a.connected
}

/// The adapters of the list that are worth a look, by index.
pub fn get_promising_devices(all: &[Adapter]) -> (kept: Vec<usize>)
    ensures
        kept@ == picked(Seq::new(all@.len(), |i: int| is_promising_spec(all@[i]))),
{
    let mut flags: Vec<bool> = Vec::new();
    let mut i: usize = 0;
    while i < all.len()
        invariant
            i <= all@.len(),
            flags@.len() == i,
            forall|k: int| 0 <= k < i ==> flags@[k] == is_promising_spec(all@[k]),
        decreases all@.len() - i,
    {
        flags.push(is_promising(&all[i]));
        i = i + 1;
    }
    assert(flags@ =~= Seq::new(all@.len(), |i: int| is_promising_spec(all@[i])));
    pick(flags.as_slice())
}

/// Whether the description mentions one of the patterns.
pub fn contains(desc: &Option<String>, patterns: &[&'static str]) -> (found: bool)
    ensures
        found == mentions(*desc, patterns@),
{
    let empty: [u8; 0] = [];
    let text: &[u8] = match desc {
        Some(d) => d.as_str().as_bytes(),
        None => empty.as_slice(),
    };
    assert(text@ =~= desc_bytes(*desc));
    let mut k: usize = 0;
    while k < patterns.len()
        invariant
            k <= patterns@.len(),
            text@ == desc_bytes(*desc),
            forall|j: int|
                0 <= j < k ==> !occurs_in(bytes_of((#[trigger] patterns@[j])@), desc_bytes(*desc)),
        decreases patterns@.len() - k,
    {
        if contains_text(text, patterns[k].as_bytes()) {
            return true;
        }
        k = k + 1;
    }
    false
}

/// For each adapter, whether its description mentions one of the patterns.
pub fn mention_flags(list: &[Adapter], patterns: &[&'static str]) -> (flags: Vec<bool>)
    ensures
        flags@ == Seq::new(list@.len(), |i: int| mentions(list@[i].desc, patterns@)),
{
    let mut flags: Vec<bool> = Vec::new();
    let mut i: usize = 0;
    while i < list.len()
        invariant
            i <= list@.len(),
            flags@.len() == i,
            forall|k: int| 0 <= k < i ==> flags@[k] == mentions(list@[k].desc, patterns@),
        decreases list@.len() - i,
    {
        flags.push(contains(&list[i].desc, patterns));
        i = i + 1;
    }
    assert(flags@ =~= Seq::new(list@.len(), |i: int| mentions(list@[i].desc, patterns@)));
    flags
}

/// The guess at the capture adapter: the first adapter that looks like
/// hardware; where none does, the first that does not look like a tunnel.
pub open spec fn source_guess(list: Seq<Adapter>) -> Option<usize> {
    let hardware = first_set(Seq::new(list.len(), |i: int| mentions(list[i].desc, hw_names_spec())));
    if hardware is Some {
        hardware
    } else {
        first_set(Seq::new(list.len(), |i: int| !mentions(list[i].desc, vpn_names_spec())))
    }
}

/// Sorts the adapters by what their descriptions mention: the tunnels, the
/// virtual adapters, and a guess at the adapter that delivers the
/// broadcast traffic.
pub fn split_to_src_and_dst(full_list: &[Adapter]) -> (split: PromisingDevices)
    ensures
        split.dst@ == picked(
            Seq::new(full_list@.len(), |i: int| mentions(full_list@[i].desc, vpn_names_spec())),
        ),
        split.virt@ == picked(
            Seq::new(full_list@.len(), |i: int| mentions(full_list@[i].desc, virt_names_spec())),
        ),
        split.src == source_guess(full_list@),
{
    let vpn: Vec<&'static str> = vpn_names();
    let vpn_flags: Vec<bool> = mention_flags(full_list, vpn.as_slice());
    let dst: Vec<usize> = pick(vpn_flags.as_slice());
    let virt: Vec<usize> = pick(mention_flags(full_list, virt_names().as_slice()).as_slice());
    let hw_flags: Vec<bool> = mention_flags(full_list, hw_names().as_slice());
    let src: Option<usize> = first(hw_flags.as_slice());
    if src.is_none() {
        let mut other: Vec<bool> = Vec::new();
        let mut i: usize = 0;
        while i < vpn_flags.len()
            invariant
                i <= vpn_flags@.len(),
                other@.len() == i,
                forall|k: int| 0 <= k < i ==> other@[k] == !vpn_flags@[k],
            decreases vpn_flags@.len() - i,
        {
            other.push(!vpn_flags[i]);
            i = i + 1;
        }
        assert(other@ =~= Seq::new(
            full_list@.len(),
            |i: int| !mentions(full_list@[i].desc, vpn_names_spec()),
        ));
        let guess: Option<usize> = first(other.as_slice());
        return PromisingDevices { src: guess, dst, virt };
    }
    PromisingDevices { src, dst, virt }
}

/// For each adapter, whether it has the given name.
pub open spec fn named_flags(list: Seq<Adapter>, name: Seq<char>) -> Seq<bool> {
    Seq::new(list.len(), |i: int| list[i].name@ == name)
}

/// Whether `name` is one of `names`.
pub open spec fn listed(name: Seq<char>, names: Seq<String>) -> bool {
    exists|k: int| 0 <= k < names.len() && (#[trigger] names[k])@ == name
}

/// For each adapter, whether its name is one of `names`.
pub open spec fn listed_flags(list: Seq<Adapter>, names: Seq<String>) -> Seq<bool> {
    Seq::new(list.len(), |i: int| listed(list[i].name@, names))
}

/// The capture adapter: the one that the user named, or else the guess.
pub open spec fn chosen_source(list: Seq<Adapter>, srcdev: Option<String>) -> Result<
    usize,
    DeviceFault,
> {
    match srcdev {
        None => match source_guess(list) {
            Some(i) => Ok(i),
            None => Err(DeviceFault::NoHardwareAdapter),
        },
        Some(name) => match first_set(named_flags(list, name@)) {
            Some(i) => Ok(i),
            None => Err(DeviceFault::SourceNotFound),
        },
    }
}

/// The tunnels: the adapters that the user named, all of which have to be
/// there, or else the adapters that look like tunnels, of which there has to
/// be one.
pub open spec fn chosen_tunnels(list: Seq<Adapter>, dstdev: Seq<String>) -> Result<
    Seq<usize>,
    DeviceFault,
> {
    if dstdev.len() == 0 {
        let guess = picked(Seq::new(list.len(), |i: int| mentions(list[i].desc, vpn_names_spec())));
        if guess.len() == 0 {
            Err(DeviceFault::NoVpnAdapter)
        } else {
            Ok(guess)
        }
    } else {
        let found = picked(listed_flags(list, dstdev));
        if found.len() != dstdev.len() {
            Err(DeviceFault::VpnNotFound(found))
        } else {
            Ok(found)
        }
    }
}

/// Whether `name` is one of `names`.
pub fn is_listed(name: &String, names: &[String]) -> (found: bool)
    ensures
        found == listed(name@, names@),
{
    let mut k: usize = 0;
    while k < names.len()
        invariant
            k <= names@.len(),
            forall|j: int| 0 <= j < k ==> (#[trigger] names@[j])@ != name@,
        decreases names@.len() - k,
    {
        if names[k] == *name {
            return true;
        }
        k = k + 1;
    }
    false
}

/// Chooses the adapters to run on. The user's choice goes first: a named
/// capture adapter has to be in the list, and so has every named tunnel.
/// Where the user named none, the descriptions decide. The capture adapter
/// is settled before the tunnels are looked at.
pub fn get_devices(devs: &[Adapter], srcdev: &Option<String>, dstdev: &[String]) -> (r: Result<
    Selection,
    DeviceError,
>)
    ensures
        match chosen_source(devs@, *srcdev) {
            Err(fault) => r is Err && r->Err_0@ == fault,
            Ok(src) => match chosen_tunnels(devs@, dstdev@) {
                Err(fault) => r is Err && r->Err_0@ == fault,
                Ok(dst) => r is Ok && r->Ok_0.src == src && r->Ok_0.dst@ == dst,
            },
        },
        r is Ok ==> r->Ok_0.src < devs@.len() && forall|k: int|
            0 <= k < r->Ok_0.dst@.len() ==> #[trigger] r->Ok_0.dst@[k] < devs@.len(),
{
    let split: PromisingDevices = split_to_src_and_dst(devs);
    let src: usize = match srcdev {
        None => match split.src {
            Some(i) => i,
            None => {
                return Err(DeviceError::NoHardwareAdapter);
            },
        },
        Some(name) => {
            let mut flags: Vec<bool> = Vec::new();
            let mut i: usize = 0;
            while i < devs.len()
                invariant
                    i <= devs@.len(),
                    flags@.len() == i,
                    forall|k: int| 0 <= k < i ==> flags@[k] == (devs@[k].name@ == name@),
                decreases devs@.len() - i,
            {
                flags.push(devs[i].name == *name);
                i = i + 1;
            }
            assert(flags@ =~= named_flags(devs@, name@));
            match first(flags.as_slice()) {
                Some(i) => i,
                None => {
                    return Err(DeviceError::SourceNotFound);
                },
            }
        },
    };
    let dst: Vec<usize> = if dstdev.len() == 0 {
        if split.dst.len() == 0 {
            return Err(DeviceError::NoVpnAdapter);
        }
        split.dst
    } else {
        let mut flags: Vec<bool> = Vec::new();
        let mut i: usize = 0;
        while i < devs.len()
            invariant
                i <= devs@.len(),
                flags@.len() == i,
                forall|k: int| 0 <= k < i ==> flags@[k] == listed(devs@[k].name@, dstdev@),
            decreases devs@.len() - i,
        {
            flags.push(is_listed(&devs[i].name, dstdev));
            i = i + 1;
        }
        assert(flags@ =~= listed_flags(devs@, dstdev@));
        let found: Vec<usize> = pick(flags.as_slice());
        if found.len() != dstdev.len() {
            return Err(DeviceError::VpnNotFound(found));
        }
        found
    };
    let count: usize = devs.len();
    proof {
        assert(devs@.len() == count);
        lemma_first_set(Seq::new(devs@.len(), |i: int| mentions(devs@[i].desc, hw_names_spec())));
        lemma_first_set(
            Seq::new(devs@.len(), |i: int| !mentions(devs@[i].desc, vpn_names_spec())),
        );
        if srcdev is Some {
            lemma_first_set(named_flags(devs@, srcdev->Some_0@));
        }
        assert forall|k: int| 0 <= k < dst@.len() implies #[trigger] dst@[k] < devs@.len() by {
            if dstdev@.len() == 0 {
                lemma_picked_members(
                    Seq::new(devs@.len(), |i: int| mentions(devs@[i].desc, vpn_names_spec())),
                    dst@[k],
                );
            } else {
                lemma_picked_members(listed_flags(devs@, dstdev@), dst@[k]);
            }
        }
    }
    Ok(Selection { src, dst })
}

/// The first address of the adapter at index `i`.
pub open spec fn first_address(list: Seq<Adapter>, i: usize) -> Option<HostAddr> {
    if i < list.len() && list[i as int].addresses@.len() > 0 {
        Some(list[i as int].addresses@[0])
    } else {
        None
    }
}

/// The addresses that the relay runs on: the first address of each chosen
/// adapter. The first chosen adapter without an address, the capture adapter
/// before the tunnels, is reported.
pub fn parsed_devices(devs: &[Adapter], chosen: &Selection) -> (r: Result<
    ParsedDevices,
    DeviceError,
>)
    ensures
        r is Ok <==> first_address(devs@, chosen.src) is Some && forall|k: int|
            0 <= k < chosen.dst@.len() ==> first_address(devs@, #[trigger] chosen.dst@[k]) is Some,
        r is Ok ==> Some(r->Ok_0.src) == first_address(devs@, chosen.src) && r->Ok_0.dst@.len()
            == chosen.dst@.len() && forall|k: int|
            0 <= k < chosen.dst@.len() ==> Some(#[trigger] r->Ok_0.dst@[k]) == first_address(
                devs@,
                chosen.dst@[k],
            ),
        r is Err ==> r->Err_0 is NoAddress && first_address(devs@, r->Err_0->NoAddress_0) is None,
        r is Err && first_address(devs@, chosen.src) is None ==> r->Err_0->NoAddress_0
            == chosen.src,
        r is Err && first_address(devs@, chosen.src) is Some ==> exists|k: int|
            0 <= k < chosen.dst@.len() && #[trigger] chosen.dst@[k] == r->Err_0->NoAddress_0
                && forall|j: int|
                0 <= j < k ==> first_address(devs@, #[trigger] chosen.dst@[j]) is Some,
{
    if chosen.src >= devs.len() || devs[chosen.src].addresses.len() == 0 {
        return Err(DeviceError::NoAddress(chosen.src));
    }
    let src: HostAddr = devs[chosen.src].addresses[0];
    let mut dst: Vec<HostAddr> = Vec::new();
    let mut k: usize = 0;
    while k < chosen.dst.len()
        invariant
            k <= chosen.dst@.len(),
            dst@.len() == k,
            first_address(devs@, chosen.src) is Some,
            forall|j: int|
                0 <= j < k ==> Some(#[trigger] dst@[j]) == first_address(devs@, chosen.dst@[j]),
            forall|j: int| 0 <= j < k ==> first_address(devs@, #[trigger] chosen.dst@[j]) is Some,
        decreases chosen.dst@.len() - k,
    {
        let i: usize = chosen.dst[k];
        if i >= devs.len() || devs[i].addresses.len() == 0 {
            return Err(DeviceError::NoAddress(i));
        }
        dst.push(devs[i].addresses[0]);
        k = k + 1;
    }
    Ok(ParsedDevices { src, dst })
}

} // verus!
