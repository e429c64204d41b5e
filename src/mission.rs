//! The eight missions and their packed bitfield.

use crate::error::{Error, Fail};
use crate::text::{chars_are, fold_name, folded};
use vstd::prelude::*;

verus! {

/// The missions the spy tries to complete.
#[derive(Debug, Clone, Copy, PartialEq, Eq, Hash, Structural)]
pub enum Mission {
    BugAmbassador,
    ContactDoubleAgent,
    FingerprintAmbassador,
    InspectStatues,
    PurloinGuestList,
    SeduceTarget,
    SwapStatue,
    TransferMicrofilm,
}

/// The mission bound to bit `i` of a mission bitfield (`i < 8`).
pub open spec fn mission_at_bit(i: nat) -> Mission {
    if i == 0 {
        Mission::BugAmbassador
    } else if i == 1 {
        Mission::ContactDoubleAgent
    } else if i == 2 {
        Mission::TransferMicrofilm
    } else if i == 3 {
        Mission::SwapStatue
    } else if i == 4 {
        Mission::InspectStatues
    } else if i == 5 {
        Mission::SeduceTarget
    } else if i == 6 {
        Mission::PurloinGuestList
    } else {
        Mission::FingerprintAmbassador
    }
}

/// The bit that stands for `m` in a mission bitfield.
pub open spec fn bit_of(m: Mission) -> nat {
    match m {
        Mission::BugAmbassador => 0,
        Mission::ContactDoubleAgent => 1,
        Mission::TransferMicrofilm => 2,
        Mission::SwapStatue => 3,
        Mission::InspectStatues => 4,
        Mission::SeduceTarget => 5,
        Mission::PurloinGuestList => 6,
        Mission::FingerprintAmbassador => 7,
    }
}

/// Whether bit `i` of `x` is set.
pub open spec fn bit_set(x: u32, i: nat) -> bool {
    x & (1u32 << (i as u32)) != 0
}

/// The missions of the bits of `x` below `n`, in bit order.
pub open spec fn missions_below(x: u32, n: nat) -> Seq<Mission>
    decreases n,
{
    if n == 0 {
        Seq::empty()
    } else {
        let before = missions_below(x, (n - 1) as nat);
        if bit_set(x, (n - 1) as nat) {
            before.push(mission_at_bit((n - 1) as nat))
        } else {
            before
        }
    }
}

/// The missions that the bitfield `x` holds, in bit order; bits 8 and up
/// stand for nothing.
pub open spec fn missions_of(x: u32) -> Seq<Mission> {
    missions_below(x, 8)
}

/// The mission of bit `i`, from the fixed bit table.
pub(crate) fn mission_for_bit(i: u32) -> (m: Mission)
    requires
        i < 8,
    ensures
        m == mission_at_bit(i as nat),
{
    match i {
        0 => Mission::BugAmbassador,
        1 => Mission::ContactDoubleAgent,
        2 => Mission::TransferMicrofilm,
        3 => Mission::SwapStatue,
        4 => Mission::InspectStatues,
        5 => Mission::SeduceTarget,
        6 => Mission::PurloinGuestList,
        _ => Mission::FingerprintAmbassador,
    }
}

/// Unpacks a bitfield of missions into a vector, in bit order.
pub fn unpack_missions(data: u32) -> (r: Vec<Mission>)
    ensures
        r@ == missions_of(data),
{
    let mut missions: Vec<Mission> = Vec::new();
    let mut i: u32 = 0;
    while i < 8
        invariant
            i <= 8,
            missions@ == missions_below(data, i as nat),
        decreases 8 - i,
    {
        if data & (1u32 << i) != 0 {
            missions.push(mission_for_bit(i));
        }
        i = i + 1;
    }
    missions
}

/// The short name of a mission.
pub open spec fn short_name(m: Mission) -> Seq<char> {
    match m {
        Mission::BugAmbassador => "Bug"@,
        Mission::ContactDoubleAgent => "BB"@,
        Mission::FingerprintAmbassador => "Fingerprint"@,
        Mission::InspectStatues => "Inspect"@,
        Mission::PurloinGuestList => "Purloin"@,
        Mission::SeduceTarget => "Seduce"@,
        Mission::SwapStatue => "Swap"@,
        Mission::TransferMicrofilm => "Transfer MF"@,
    }
}

/// The full name of a mission.
pub open spec fn full_name(m: Mission) -> Seq<char> {
    match m {
        Mission::BugAmbassador => "Bug Ambassador"@,
        Mission::ContactDoubleAgent => "Contact Double Agent"@,
        Mission::FingerprintAmbassador => "Fingerprint Ambassador"@,
        Mission::InspectStatues => "Inspect Statues"@,
        Mission::PurloinGuestList => "Purloin Guest List"@,
        Mission::SeduceTarget => "Seduce Target"@,
        Mission::SwapStatue => "Swap Statue"@,
        Mission::TransferMicrofilm => "Transfer Microfilm"@,
    }
}

/// The mission that a folded name (see [`folded`]) stands for, among the
/// accepted aliases.
pub open spec fn mission_named(t: Seq<char>) -> Option<Mission> {
    if t == "bugambassador"@ || t == "bug"@ {
        Some(Mission::BugAmbassador)
    } else if t == "contactdoubleagent"@ || t == "contactda"@ || t == "contact"@ || t == "bb"@ {
        Some(Mission::ContactDoubleAgent)
    } else if t == "fingerprintambassador"@ || t == "fingerprint"@ || t == "fp"@ {
        Some(Mission::FingerprintAmbassador)
    } else if t == "inspectstatues"@ || t == "inspect"@ {
        Some(Mission::InspectStatues)
    } else if t == "purloinguestlist"@ || t == "purloin"@ {
        Some(Mission::PurloinGuestList)
    } else if t == "seducetarget"@ || t == "seduce"@ {
        Some(Mission::SeduceTarget)
    } else if t == "swapstatue"@ || t == "swap"@ || t == "paws"@ {
        Some(Mission::SwapStatue)
    } else if t == "transfermicrofilm"@ || t == "transfermf"@ || t == "mf"@ {
        Some(Mission::TransferMicrofilm)
    } else {
        None
    }
}

/// The full names of `ms`, separated by commas.
pub open spec fn joined_names(ms: Seq<Mission>) -> Seq<char>
    decreases ms.len(),
{
    if ms.len() == 0 {
        Seq::empty()
    } else if ms.len() == 1 {
        full_name(ms[0])
    } else {
        joined_names(ms.drop_last()) + ","@ + full_name(ms.last())
    }
}

/// Joins the full names of missions, separated by commas.
pub fn join_missions(missions: &Vec<Mission>) -> (r: String)
    ensures
        r@ == joined_names(missions@),
{
    let mut out = String::new();
    let mut i: usize = 0;
    while i < missions.len()
        invariant
            i <= missions@.len(),
            out@ == joined_names(missions@.subrange(0, i as int)),
        decreases missions@.len() - i,
    {
        proof {
            let next = missions@.subrange(0, i + 1);
            assert(next.drop_last() =~= missions@.subrange(0, i as int));
            assert(next.last() == missions@[i as int]);
            if i == 0 {
                assert(next.len() == 1 && next[0] == missions@[0]);
            }
        }
        if i > 0 {
            out = out.concat(",");
        }
        out = out.concat(missions[i].display_name());
        i = i + 1;
    }
    proof {
        assert(missions@.subrange(0, missions@.len() as int) =~= missions@);
    }
    out
}

impl Mission {
    /// Unpacks a bitfield of missions into a vector, in bit order.
    pub fn unpack_missions(data: u32) -> (r: Vec<Mission>)
        ensures
            r@ == missions_of(data),
    {
        unpack_missions(data)
    }

    /// Returns the shorthand for a mission.
    pub fn short_display(&self) -> (r: &'static str)
        ensures
            r@ == short_name(*self),
    {
        match self {
            Mission::BugAmbassador => "Bug",
            Mission::ContactDoubleAgent => "BB",
            Mission::FingerprintAmbassador => "Fingerprint",
            Mission::InspectStatues => "Inspect",
            Mission::PurloinGuestList => "Purloin",
            Mission::SeduceTarget => "Seduce",
            Mission::SwapStatue => "Swap",
            Mission::TransferMicrofilm => "Transfer MF",
        }
    }

    /// Returns the full name of a mission, as it is shown.
    pub fn display_name(&self) -> (r: &'static str)
        ensures
            r@ == full_name(*self),
    {
        match self {
            Mission::BugAmbassador => "Bug Ambassador",
            Mission::ContactDoubleAgent => "Contact Double Agent",
            Mission::FingerprintAmbassador => "Fingerprint Ambassador",
            Mission::InspectStatues => "Inspect Statues",
            Mission::PurloinGuestList => "Purloin Guest List",
            Mission::SeduceTarget => "Seduce Target",
            Mission::SwapStatue => "Swap Statue",
            Mission::TransferMicrofilm => "Transfer Microfilm",
        }
    }

    /// Parses a mission name, ignoring ASCII case and spaces; several
    /// aliases are accepted for each mission.
    pub fn from_name(name: &str) -> (r: Result<Mission, Error>)
        ensures
            match mission_named(folded(name@)) {
                Some(m) => r matches Ok(x) && x == m,
                None => r matches Err(e) && e@ == Fail::UnknownMission(name@),
            },
    {
        let t = fold_name(name);
        if chars_are(&t, "bugambassador") || chars_are(&t, "bug") {
            Ok(Mission::BugAmbassador)
        } else if chars_are(&t, "contactdoubleagent") || chars_are(&t, "contactda")
            || chars_are(&t, "contact") || chars_are(&t, "bb") {
            Ok(Mission::ContactDoubleAgent)
        } else if chars_are(&t, "fingerprintambassador") || chars_are(&t, "fingerprint")
            || chars_are(&t, "fp") {
            Ok(Mission::FingerprintAmbassador)
        } else if chars_are(&t, "inspectstatues") || chars_are(&t, "inspect") {
            Ok(Mission::InspectStatues)
        } else if chars_are(&t, "purloinguestlist") || chars_are(&t, "purloin") {
            Ok(Mission::PurloinGuestList)
        } else if chars_are(&t, "seducetarget") || chars_are(&t, "seduce") {
            Ok(Mission::SeduceTarget)
        } else if chars_are(&t, "swapstatue") || chars_are(&t, "swap") || chars_are(&t, "paws") {
            Ok(Mission::SwapStatue)
        } else if chars_are(&t, "transfermicrofilm") || chars_are(&t, "transfermf")
            || chars_are(&t, "mf") {
            Ok(Mission::TransferMicrofilm)
        } else {
            Err(Error::UnknownMission(String::from_str(name)))
        }
    }
}

/// Bit `i` picks mission `m` exactly when `i` is the bit of `m`.
proof fn lemma_bit_table(i: nat, m: Mission)
    requires
        i < 8,
    ensures
        (mission_at_bit(i) == m) <==> (bit_of(m) == i),
        bit_of(m) < 8,
        mission_at_bit(bit_of(m)) == m,
{
}

/// The missions below bit `n` are those whose bit is below `n` and set.
proof fn lemma_missions_below_contains(x: u32, n: nat, m: Mission)
    requires
        n <= 8,
    ensures
        missions_below(x, n).contains(m) <==> (bit_of(m) < n && bit_set(x, bit_of(m))),
    decreases n,
{
    if n > 0 {
        let k = (n - 1) as nat;
        lemma_missions_below_contains(x, k, m);
        lemma_bit_table(k, m);
        let before = missions_below(x, k);
        if bit_set(x, k) {
            let after = before.push(mission_at_bit(k));
            assert(after.contains(m) <==> (before.contains(m) || mission_at_bit(k) == m)) by {
                if after.contains(m) {
                    let j = choose|j: int| 0 <= j < after.len() && after[j] == m;
                    if j < before.len() {
                        assert(before[j] == m);
                    }
                }
                if before.contains(m) {
                    let j = choose|j: int| 0 <= j < before.len() && before[j] == m;
                    assert(after[j] == m);
                }
                if mission_at_bit(k) == m {
                    assert(after[before.len() as int] == m);
                }
            }
        }
    }
}

/// A mission is among those of a bitfield exactly when its bit is set.
pub proof fn lemma_missions_of_contains(x: u32, m: Mission)
    ensures
        missions_of(x).contains(m) <==> bit_set(x, bit_of(m)),
{
    lemma_missions_below_contains(x, 8, m);
    lemma_bit_table(0, m);
}

/// An unpacked bitfield names each mission at most once, so it has at most
/// eight of them.
pub proof fn lemma_missions_of_no_duplicates(x: u32)
    ensures
        missions_of(x).no_duplicates(),
        missions_of(x).len() <= 8,
{
    lemma_missions_below_no_duplicates(x, 8);
}

proof fn lemma_missions_below_no_duplicates(x: u32, n: nat)
    requires
        n <= 8,
    ensures
        missions_below(x, n).no_duplicates(),
        missions_below(x, n).len() <= n,
    decreases n,
{
    if n > 0 {
        let k = (n - 1) as nat;
        lemma_missions_below_no_duplicates(x, k);
        let before = missions_below(x, k);
        if bit_set(x, k) {
            let m = mission_at_bit(k);
            lemma_missions_below_contains(x, k, m);
            lemma_bit_table(k, m);
            let after = before.push(m);
            assert forall|a: int, b: int|
                0 <= a < after.len() && 0 <= b < after.len() && a != b implies after[a]
                != after[b] by {
                if a == before.len() {
                    assert(before.contains(after[b]));
                } else if b == before.len() {
                    assert(before.contains(after[a]));
                }
            }
        }
    }
}

/// The low eight bits of two words agree exactly when each of those bits does.
proof fn lemma_low_byte_bits(x: u32, y: u32)
    ensures
        (x & 0xff == y & 0xff) <==> (forall|i: nat| i < 8 ==> bit_set(x, i) == bit_set(y, i)),
{
    if x & 0xff == y & 0xff {
        assert forall|i: nat| i < 8 implies bit_set(x, i) == bit_set(y, i) by {
            let k = i as u32;
            assert(k < 8 && x & 0xff == y & 0xff ==> ((x & (1u32 << k)) != 0) == ((y & (1u32
                << k)) != 0)) by (bit_vector);
        }
    }
    if forall|i: nat| i < 8 ==> bit_set(x, i) == bit_set(y, i) {
        assert(bit_set(x, 0) == bit_set(y, 0));
        assert(bit_set(x, 1) == bit_set(y, 1));
        assert(bit_set(x, 2) == bit_set(y, 2));
        assert(bit_set(x, 3) == bit_set(y, 3));
        assert(bit_set(x, 4) == bit_set(y, 4));
        assert(bit_set(x, 5) == bit_set(y, 5));
        assert(bit_set(x, 6) == bit_set(y, 6));
        assert(bit_set(x, 7) == bit_set(y, 7));
        assert(x & 0xff == y & 0xff) by (bit_vector)
            requires
                ((x & (1u32 << 0u32)) != 0) == ((y & (1u32 << 0u32)) != 0),
                ((x & (1u32 << 1u32)) != 0) == ((y & (1u32 << 1u32)) != 0),
                ((x & (1u32 << 2u32)) != 0) == ((y & (1u32 << 2u32)) != 0),
                ((x & (1u32 << 3u32)) != 0) == ((y & (1u32 << 3u32)) != 0),
                ((x & (1u32 << 4u32)) != 0) == ((y & (1u32 << 4u32)) != 0),
                ((x & (1u32 << 5u32)) != 0) == ((y & (1u32 << 5u32)) != 0),
                ((x & (1u32 << 6u32)) != 0) == ((y & (1u32 << 6u32)) != 0),
                ((x & (1u32 << 7u32)) != 0) == ((y & (1u32 << 7u32)) != 0),
        ;
    }
}

/// Missions below bit `n` depend on those bits alone.
proof fn lemma_missions_below_same_bits(x: u32, y: u32, n: nat)
    requires
        n <= 8,
        forall|i: nat| i < 8 ==> bit_set(x, i) == bit_set(y, i),
    ensures
        missions_below(x, n) == missions_below(y, n),
    decreases n,
{
    if n > 0 {
        lemma_missions_below_same_bits(x, y, (n - 1) as nat);
    }
}

/// Two bitfields unpack to the same missions exactly when their low eight
/// bits agree: bits 8 to 31 are ignored, and on the low byte the decoding is
/// injective.
pub proof fn lemma_missions_of_low_byte(x: u32, y: u32)
    ensures
        (missions_of(x) == missions_of(y)) <==> (x & 0xff == y & 0xff),
{
    lemma_low_byte_bits(x, y);
    if x & 0xff == y & 0xff {
        lemma_missions_below_same_bits(x, y, 8);
    }
    if missions_of(x) == missions_of(y) {
        assert forall|i: nat| i < 8 implies bit_set(x, i) == bit_set(y, i) by {
            let m = mission_at_bit(i);
            lemma_bit_table(i, m);
            lemma_missions_of_contains(x, m);
            lemma_missions_of_contains(y, m);
        }
    }
}

} // verus!
