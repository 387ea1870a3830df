//! The wicked description of a network interface, as read from its XML
//! configuration, and the NetworkManager bond options derived from it.
use crate::dict::Dict;
use crate::text::{decimal, join, u32_to_decimal, join_strings, views};
use vstd::prelude::*;

verus! {

/// A wicked interface configuration.
#[derive(Debug, PartialEq, Default)]
pub struct Interface {
    pub name: String,
    pub control: Control,
    pub firewall: Firewall,
    pub link: Link,
    pub ipv4: Ipv4,
    pub ipv4_static: Option<Ipv4Static>,
    pub ipv6: Ipv6,
    pub ipv6_static: Option<Ipv6Static>,
    pub ipv6_dhcp: Option<Ipv6Dhcp>,
    pub ipv6_auto: Option<Ipv6Auto>,
    pub bond: Option<Bond>,
    pub origin: String,
}

/// The kind of the interface that another one is enslaved to.
#[derive(Debug, PartialEq, Clone, Copy)]
pub enum ParentKind {
    Bond,
}

#[derive(Debug, PartialEq, Default)]
pub struct Control {
    pub mode: String,
}

#[derive(Debug, PartialEq, Default)]
pub struct Firewall {}

#[derive(Debug, PartialEq, Default)]
pub struct Link {
    /// The interface this one is enslaved to (`master` in wicked).
    pub parent: Option<String>,
    pub kind: Option<ParentKind>,
}

#[derive(Debug, PartialEq, Default)]
pub struct Ipv4 {
    pub enabled: bool,
    pub arp_verify: bool,
}

#[derive(Debug, PartialEq, Default)]
pub struct Ipv6 {
    pub enabled: bool,
    pub privacy: String,
    pub accept_redirects: bool,
}

#[derive(Debug, PartialEq)]
pub struct Ipv4Static {
    pub addresses: Option<Vec<Address>>,
    pub routes: Option<Vec<Route>>,
}

#[derive(Debug, PartialEq)]
pub struct Ipv6Static {
    pub addresses: Option<Vec<Address>>,
    pub routes: Option<Vec<Route>>,
}

#[derive(Debug, PartialEq, Default)]
pub struct Address {
    pub local: String,
}

#[derive(Debug, PartialEq, Default)]
pub struct Ipv6Dhcp {
    pub enabled: bool,
    pub flags: String,
    pub update: Vec<String>,
    pub mode: String,
    pub rapid_commit: String,
    pub hostname: String,
    pub defer_timeout: u32,
    pub recover_lease: bool,
    pub refresh_lease: bool,
    pub release_lease: bool,
}

#[derive(Debug, PartialEq, Default)]
pub struct Ipv6Auto {
    pub enabled: bool,
    pub update: Vec<String>,
}

#[derive(Debug, PartialEq, Clone, Copy)]
pub enum FailOverMac {
    /// `none`
    Off,
    Active,
    Follow,
}

#[derive(Debug, PartialEq, Default)]
pub struct Route {
    pub destination: Option<String>,
    pub nexthops: Option<Vec<Nexthop>>,
    pub priority: Option<u32>,
}

#[derive(Debug, PartialEq)]
pub struct Nexthop {
    pub gateway: String,
}

#[derive(Debug, PartialEq, Clone, Copy)]
pub enum XmitHashPolicy {
    Layer2,
    Layer23,
    Layer34,
    Encap23,
    Encap34,
}

#[derive(Debug, PartialEq, Clone, Copy)]
pub enum LacpRate {
    Slow,
    Fast,
}

#[derive(Debug, PartialEq, Clone, Copy)]
pub enum AdSelect {
    Stable,
    Bandwidth,
    Count,
}

#[derive(Debug, PartialEq, Clone, Copy)]
pub enum PrimaryReselect {
    Always,
    Better,
    Failure,
}

#[derive(Debug, PartialEq, Clone, Copy)]
pub enum BondMode {
    BalanceRr,
    ActiveBackup,
    BalanceXor,
    Broadcast,
    IEEE8023ad,
    BalanceTlb,
    BalanceAlb,
}

/// A wicked bond configuration.
#[derive(Debug, PartialEq)]
pub struct Bond {
    pub mode: BondMode,
    pub miimon: Option<Miimon>,
    pub arpmon: Option<ArpMon>,
    pub slaves: Vec<Slave>,
    pub xmit_hash_policy: Option<XmitHashPolicy>,
    pub packets_per_slave: Option<u32>,
    pub tlb_dynamic_lb: Option<bool>,
    pub lacp_rate: Option<LacpRate>,
    pub ad_select: Option<AdSelect>,
    pub ad_user_port_key: Option<u32>,
    pub ad_actor_sys_prio: Option<u32>,
    pub ad_actor_system: Option<String>,
    pub min_links: Option<u32>,
    pub primary_reselect: Option<PrimaryReselect>,
    pub fail_over_mac: Option<FailOverMac>,
    pub num_grat_arp: Option<u32>,
    pub num_usol_na: Option<u32>,
    pub lp_interval: Option<u32>,
    pub resend_igmp: Option<u32>,
    pub all_slaves_active: Option<bool>,
}

#[derive(Debug, PartialEq, Default)]
pub struct Slave {
    pub device: String,
    pub primary: Option<bool>,
}

#[derive(Debug, PartialEq, Default, Clone, Copy)]
pub enum CarrierDetect {
    Ioctl,
    #[default]
    Netif,
}

#[derive(Debug, PartialEq, Default)]
pub struct Miimon {
    pub frequency: u32,
    pub carrier_detect: CarrierDetect,
    pub downdelay: Option<u32>,
    pub updelay: Option<u32>,
}

#[derive(Debug, PartialEq, Clone, Copy)]
pub enum ArpValidateTargets {
    Any,
    All,
}

#[derive(Debug, PartialEq, Clone, Copy)]
pub enum ArpValidate {
    /// `none`
    Off,
    Active,
    Backup,
    All,
    Filter,
    FilterActive,
    FilterBackup,
}

#[derive(Debug, PartialEq)]
pub struct ArpMon {
    pub interval: u32,
    pub validate: ArpValidate,
    pub validate_targets: Option<ArpValidateTargets>,
    pub targets: Vec<String>,
}

// ---------------------------------------------------------------------------
// Names of the enumerations, as wicked and NetworkManager write them.

impl BondMode {
    pub open spec fn spec_name(self) -> Seq<char> {
        match self {
            BondMode::BalanceRr => "balance-rr"@,
            BondMode::ActiveBackup => "active-backup"@,
            BondMode::BalanceXor => "balance-xor"@,
            BondMode::Broadcast => "broadcast"@,
            BondMode::IEEE8023ad => "802.3ad"@,
            BondMode::BalanceTlb => "balance-tlb"@,
            BondMode::BalanceAlb => "balance-alb"@,
        }
    }

    /// The kebab-case name of the mode (`802.3ad` for IEEE 802.3ad).
    pub fn name(&self) -> (r: &'static str)
        ensures
            r@ == self.spec_name(),
    {
        match self {
            BondMode::BalanceRr => "balance-rr",
            BondMode::ActiveBackup => "active-backup",
            BondMode::BalanceXor => "balance-xor",
            BondMode::Broadcast => "broadcast",
            BondMode::IEEE8023ad => "802.3ad",
            BondMode::BalanceTlb => "balance-tlb",
            BondMode::BalanceAlb => "balance-alb",
        }
    }
}

/// Whether `c` is an ASCII capital letter.
pub open spec fn is_upper(c: char) -> bool {
    'A' <= c && c <= 'Z'
}

/// The small letter of an ASCII capital letter.
pub open spec fn lower(c: char) -> char {
    ((c as int) + 32) as char
}

/// A Rust identifier with its words joined by `sep`, as `strum` writes it
/// in kebab case (`-`) or snake case (`_`): every capital letter made
/// small, and `sep` before each one but the first character.
pub open spec fn words_joined(s: Seq<char>, sep: char) -> Seq<char>
    decreases s.len(),
{
    if s.len() == 0 {
        s
    } else {
        let rest = words_joined(s.drop_last(), sep);
        let c = s.last();
        if is_upper(c) {
            if s.len() == 1 {
                rest.push(lower(c))
            } else {
                rest.push(sep).push(lower(c))
            }
        } else {
            rest.push(c)
        }
    }
}

/// A Rust identifier in kebab case.
pub open spec fn kebab_case(s: Seq<char>) -> Seq<char> {
    words_joined(s, '-')
}

/// A Rust identifier in snake case.
pub open spec fn snake_case(s: Seq<char>) -> Seq<char> {
    words_joined(s, '_')
}

impl BondMode {
    /// The name of the variant in the source.
    pub open spec fn identifier(self) -> Seq<char> {
        match self {
            BondMode::BalanceRr => "BalanceRr"@,
            BondMode::ActiveBackup => "ActiveBackup"@,
            BondMode::BalanceXor => "BalanceXor"@,
            BondMode::Broadcast => "Broadcast"@,
            BondMode::IEEE8023ad => "IEEE8023ad"@,
            BondMode::BalanceTlb => "BalanceTlb"@,
            BondMode::BalanceAlb => "BalanceAlb"@,
        }
    }
}

/// Every bond mode is named as `strum` derives it: its identifier in kebab
/// case (`BalanceAlb` is `balance-alb`), but IEEE 802.3ad, which is named
/// `802.3ad`; so distinct modes have distinct names.
pub proof fn lemma_bond_mode_names(m: BondMode, n: BondMode)
    ensures
        m != BondMode::IEEE8023ad ==> m.spec_name() == kebab_case(m.identifier()),
        m == BondMode::IEEE8023ad ==> m.spec_name() == "802.3ad"@,
        m != n ==> m.spec_name() != n.spec_name(),
{
    reveal_strlit("BalanceRr");
    reveal_strlit("ActiveBackup");
    reveal_strlit("BalanceXor");
    reveal_strlit("Broadcast");
    reveal_strlit("BalanceTlb");
    reveal_strlit("BalanceAlb");
    reveal_strlit("balance-rr");
    reveal_strlit("active-backup");
    reveal_strlit("balance-xor");
    reveal_strlit("broadcast");
    reveal_strlit("802.3ad");
    reveal_strlit("balance-tlb");
    reveal_strlit("balance-alb");
    reveal_with_fuel(words_joined, 13);
    if m != BondMode::IEEE8023ad {
        assert(m.spec_name() =~= kebab_case(m.identifier()));
    }
    if m != n {
        assert(m.spec_name().len() != n.spec_name().len() || m.spec_name()[0] != n.spec_name()[0]
            || m.spec_name()[8] != n.spec_name()[8]);
    }
}

impl FailOverMac {
    pub open spec fn spec_name(self) -> Seq<char> {
        match self {
            FailOverMac::Off => "none"@,
            FailOverMac::Active => "active"@,
            FailOverMac::Follow => "follow"@,
        }
    }

    /// The kebab-case name.
    pub fn name(&self) -> (r: &'static str)
        ensures
            r@ == self.spec_name(),
    {
        match self {
            FailOverMac::Off => "none",
            FailOverMac::Active => "active",
            FailOverMac::Follow => "follow",
        }
    }
}

impl XmitHashPolicy {
    pub open spec fn spec_name(self) -> Seq<char> {
        match self {
            XmitHashPolicy::Layer2 => "layer2"@,
            XmitHashPolicy::Layer23 => "layer23"@,
            XmitHashPolicy::Layer34 => "layer34"@,
            XmitHashPolicy::Encap23 => "encap23"@,
            XmitHashPolicy::Encap34 => "encap34"@,
        }
    }

    /// The kebab-case name.
    pub fn name(&self) -> (r: &'static str)
        ensures
            r@ == self.spec_name(),
    {
        match self {
            XmitHashPolicy::Layer2 => "layer2",
            XmitHashPolicy::Layer23 => "layer23",
            XmitHashPolicy::Layer34 => "layer34",
            XmitHashPolicy::Encap23 => "encap23",
            XmitHashPolicy::Encap34 => "encap34",
        }
    }
}

impl LacpRate {
    pub open spec fn spec_name(self) -> Seq<char> {
        match self {
            LacpRate::Slow => "slow"@,
            LacpRate::Fast => "fast"@,
        }
    }

    /// The kebab-case name.
    pub fn name(&self) -> (r: &'static str)
        ensures
            r@ == self.spec_name(),
    {
        match self {
            LacpRate::Slow => "slow",
            LacpRate::Fast => "fast",
        }
    }
}

impl AdSelect {
    pub open spec fn spec_name(self) -> Seq<char> {
        match self {
            AdSelect::Stable => "stable"@,
            AdSelect::Bandwidth => "bandwidth"@,
            AdSelect::Count => "count"@,
        }
    }

    /// The kebab-case name.
    pub fn name(&self) -> (r: &'static str)
        ensures
            r@ == self.spec_name(),
    {
        match self {
            AdSelect::Stable => "stable",
            AdSelect::Bandwidth => "bandwidth",
            AdSelect::Count => "count",
        }
    }
}

impl PrimaryReselect {
    pub open spec fn spec_name(self) -> Seq<char> {
        match self {
            PrimaryReselect::Always => "always"@,
            PrimaryReselect::Better => "better"@,
            PrimaryReselect::Failure => "failure"@,
        }
    }

    /// The kebab-case name.
    pub fn name(&self) -> (r: &'static str)
        ensures
            r@ == self.spec_name(),
    {
        match self {
            PrimaryReselect::Always => "always",
            PrimaryReselect::Better => "better",
            PrimaryReselect::Failure => "failure",
        }
    }
}

impl ArpValidateTargets {
    pub open spec fn spec_name(self) -> Seq<char> {
        match self {
            ArpValidateTargets::Any => "any"@,
            ArpValidateTargets::All => "all"@,
        }
    }

    /// The kebab-case name.
    pub fn name(&self) -> (r: &'static str)
        ensures
            r@ == self.spec_name(),
    {
        match self {
            ArpValidateTargets::Any => "any",
            ArpValidateTargets::All => "all",
        }
    }
}

impl ArpValidate {
    pub open spec fn spec_name(self) -> Seq<char> {
        match self {
            ArpValidate::Off => "none"@,
            ArpValidate::Active => "active"@,
            ArpValidate::Backup => "backup"@,
            ArpValidate::All => "all"@,
            ArpValidate::Filter => "filter"@,
            ArpValidate::FilterActive => "filter_active"@,
            ArpValidate::FilterBackup => "filter_backup"@,
        }
    }

    /// The snake-case name.
    pub fn name(&self) -> (r: &'static str)
        ensures
            r@ == self.spec_name(),
    {
        match self {
            ArpValidate::Off => "none",
            ArpValidate::Active => "active",
            ArpValidate::Backup => "backup",
            ArpValidate::All => "all",
            ArpValidate::Filter => "filter",
            ArpValidate::FilterActive => "filter_active",
            ArpValidate::FilterBackup => "filter_backup",
        }
    }
}

impl FailOverMac {
    /// The name of the variant that `strum` derives the name from (`Off` is `None` in wicked's schema).
    pub open spec fn identifier(self) -> Seq<char> {
        match self {
            FailOverMac::Off => "None"@,
            FailOverMac::Active => "Active"@,
            FailOverMac::Follow => "Follow"@,
        }
    }
}

/// Every FailOverMac value is named as `strum` derives it, its identifier in kebab
/// case, so distinct values have distinct names.
pub proof fn lemma_fail_over_mac_names(a: FailOverMac, b: FailOverMac)
    ensures
        a.spec_name() == kebab_case(a.identifier()),
        a != b ==> a.spec_name() != b.spec_name(),
{
    reveal_strlit("Active");
    reveal_strlit("Follow");
    reveal_strlit("None");
    reveal_strlit("active");
    reveal_strlit("follow");
    reveal_strlit("none");
    reveal_with_fuel(words_joined, 7);
    assert(a.spec_name() =~= kebab_case(a.identifier()));
    if a != b {
        assert(a.spec_name().len() != b.spec_name().len() || a.spec_name()[0] != b.spec_name()[0] || a.spec_name()[1] != b.spec_name()[1] || a.spec_name()[2] != b.spec_name()[2] || a.spec_name()[3] != b.spec_name()[3]);
    }
}

impl XmitHashPolicy {
    /// The name of the variant that `strum` derives the name from.
    pub open spec fn identifier(self) -> Seq<char> {
        match self {
            XmitHashPolicy::Layer2 => "Layer2"@,
            XmitHashPolicy::Layer23 => "Layer23"@,
            XmitHashPolicy::Layer34 => "Layer34"@,
            XmitHashPolicy::Encap23 => "Encap23"@,
            XmitHashPolicy::Encap34 => "Encap34"@,
        }
    }
}

/// Every XmitHashPolicy value is named as `strum` derives it, its identifier in kebab
/// case, so distinct values have distinct names.
pub proof fn lemma_xmit_hash_policy_names(a: XmitHashPolicy, b: XmitHashPolicy)
    ensures
        a.spec_name() == kebab_case(a.identifier()),
        a != b ==> a.spec_name() != b.spec_name(),
{
    reveal_strlit("Encap23");
    reveal_strlit("Encap34");
    reveal_strlit("Layer2");
    reveal_strlit("Layer23");
    reveal_strlit("Layer34");
    reveal_strlit("encap23");
    reveal_strlit("encap34");
    reveal_strlit("layer2");
    reveal_strlit("layer23");
    reveal_strlit("layer34");
    reveal_with_fuel(words_joined, 8);
    assert(a.spec_name() =~= kebab_case(a.identifier()));
    if a != b {
        assert(a.spec_name().len() != b.spec_name().len() || a.spec_name()[0] != b.spec_name()[0] || a.spec_name()[1] != b.spec_name()[1] || a.spec_name()[2] != b.spec_name()[2] || a.spec_name()[3] != b.spec_name()[3] || a.spec_name()[4] != b.spec_name()[4] || a.spec_name()[5] != b.spec_name()[5]);
    }
}

impl LacpRate {
    /// The name of the variant that `strum` derives the name from.
    pub open spec fn identifier(self) -> Seq<char> {
        match self {
            LacpRate::Slow => "Slow"@,
            LacpRate::Fast => "Fast"@,
        }
    }
}

/// Every LacpRate value is named as `strum` derives it, its identifier in kebab
/// case, so distinct values have distinct names.
pub proof fn lemma_lacp_rate_names(a: LacpRate, b: LacpRate)
    ensures
        a.spec_name() == kebab_case(a.identifier()),
        a != b ==> a.spec_name() != b.spec_name(),
{
    reveal_strlit("Fast");
    reveal_strlit("Slow");
    reveal_strlit("fast");
    reveal_strlit("slow");
    reveal_with_fuel(words_joined, 5);
    assert(a.spec_name() =~= kebab_case(a.identifier()));
    if a != b {
        assert(a.spec_name().len() != b.spec_name().len() || a.spec_name()[0] != b.spec_name()[0] || a.spec_name()[1] != b.spec_name()[1] || a.spec_name()[2] != b.spec_name()[2] || a.spec_name()[3] != b.spec_name()[3]);
    }
}

impl AdSelect {
    /// The name of the variant that `strum` derives the name from.
    pub open spec fn identifier(self) -> Seq<char> {
        match self {
            AdSelect::Stable => "Stable"@,
            AdSelect::Bandwidth => "Bandwidth"@,
            AdSelect::Count => "Count"@,
        }
    }
}

/// Every AdSelect value is named as `strum` derives it, its identifier in kebab
/// case, so distinct values have distinct names.
pub proof fn lemma_ad_select_names(a: AdSelect, b: AdSelect)
    ensures
        a.spec_name() == kebab_case(a.identifier()),
        a != b ==> a.spec_name() != b.spec_name(),
{
    reveal_strlit("Bandwidth");
    reveal_strlit("Count");
    reveal_strlit("Stable");
    reveal_strlit("bandwidth");
    reveal_strlit("count");
    reveal_strlit("stable");
    reveal_with_fuel(words_joined, 10);
    assert(a.spec_name() =~= kebab_case(a.identifier()));
    if a != b {
        assert(a.spec_name().len() != b.spec_name().len() || a.spec_name()[0] != b.spec_name()[0] || a.spec_name()[1] != b.spec_name()[1] || a.spec_name()[2] != b.spec_name()[2] || a.spec_name()[3] != b.spec_name()[3] || a.spec_name()[4] != b.spec_name()[4]);
    }
}

impl PrimaryReselect {
    /// The name of the variant that `strum` derives the name from.
    pub open spec fn identifier(self) -> Seq<char> {
        match self {
            PrimaryReselect::Always => "Always"@,
            PrimaryReselect::Better => "Better"@,
            PrimaryReselect::Failure => "Failure"@,
        }
    }
}

/// Every PrimaryReselect value is named as `strum` derives it, its identifier in kebab
/// case, so distinct values have distinct names.
pub proof fn lemma_primary_reselect_names(a: PrimaryReselect, b: PrimaryReselect)
    ensures
        a.spec_name() == kebab_case(a.identifier()),
        a != b ==> a.spec_name() != b.spec_name(),
{
    reveal_strlit("Always");
    reveal_strlit("Better");
    reveal_strlit("Failure");
    reveal_strlit("always");
    reveal_strlit("better");
    reveal_strlit("failure");
    reveal_with_fuel(words_joined, 8);
    assert(a.spec_name() =~= kebab_case(a.identifier()));
    if a != b {
        assert(a.spec_name().len() != b.spec_name().len() || a.spec_name()[0] != b.spec_name()[0] || a.spec_name()[1] != b.spec_name()[1] || a.spec_name()[2] != b.spec_name()[2] || a.spec_name()[3] != b.spec_name()[3] || a.spec_name()[4] != b.spec_name()[4] || a.spec_name()[5] != b.spec_name()[5]);
    }
}

impl ArpValidateTargets {
    /// The name of the variant that `strum` derives the name from.
    pub open spec fn identifier(self) -> Seq<char> {
        match self {
            ArpValidateTargets::Any => "Any"@,
            ArpValidateTargets::All => "All"@,
        }
    }
}

/// Every ArpValidateTargets value is named as `strum` derives it, its identifier in kebab
/// case, so distinct values have distinct names.
pub proof fn lemma_arp_validate_targets_names(a: ArpValidateTargets, b: ArpValidateTargets)
    ensures
        a.spec_name() == kebab_case(a.identifier()),
        a != b ==> a.spec_name() != b.spec_name(),
{
    reveal_strlit("All");
    reveal_strlit("Any");
    reveal_strlit("all");
    reveal_strlit("any");
    reveal_with_fuel(words_joined, 4);
    assert(a.spec_name() =~= kebab_case(a.identifier()));
    if a != b {
        assert(a.spec_name().len() != b.spec_name().len() || a.spec_name()[0] != b.spec_name()[0] || a.spec_name()[1] != b.spec_name()[1] || a.spec_name()[2] != b.spec_name()[2]);
    }
}

impl ArpValidate {
    /// The name of the variant that `strum` derives the name from (`Off` is `None` in wicked's schema).
    pub open spec fn identifier(self) -> Seq<char> {
        match self {
            ArpValidate::Off => "None"@,
            ArpValidate::Active => "Active"@,
            ArpValidate::Backup => "Backup"@,
            ArpValidate::All => "All"@,
            ArpValidate::Filter => "Filter"@,
            ArpValidate::FilterActive => "FilterActive"@,
            ArpValidate::FilterBackup => "FilterBackup"@,
        }
    }
}

/// Every ArpValidate value is named as `strum` derives it, its identifier in snake
/// case, so distinct values have distinct names.
pub proof fn lemma_arp_validate_names(a: ArpValidate, b: ArpValidate)
    ensures
        a.spec_name() == snake_case(a.identifier()),
        a != b ==> a.spec_name() != b.spec_name(),
{
    reveal_strlit("Active");
    reveal_strlit("All");
    reveal_strlit("Backup");
    reveal_strlit("Filter");
    reveal_strlit("FilterActive");
    reveal_strlit("FilterBackup");
    reveal_strlit("None");
    reveal_strlit("active");
    reveal_strlit("all");
    reveal_strlit("backup");
    reveal_strlit("filter");
    reveal_strlit("filter_active");
    reveal_strlit("filter_backup");
    reveal_strlit("none");
    reveal_with_fuel(words_joined, 13);
    assert(a.spec_name() =~= snake_case(a.identifier()));
    if a != b {
        assert(a.spec_name().len() != b.spec_name().len() || a.spec_name()[0] != b.spec_name()[0] || a.spec_name()[1] != b.spec_name()[1] || a.spec_name()[2] != b.spec_name()[2] || a.spec_name()[3] != b.spec_name()[3] || a.spec_name()[4] != b.spec_name()[4] || a.spec_name()[5] != b.spec_name()[5] || a.spec_name()[6] != b.spec_name()[6] || a.spec_name()[7] != b.spec_name()[7] || a.spec_name()[8] != b.spec_name()[8] || a.spec_name()[9] != b.spec_name()[9] || a.spec_name()[10] != b.spec_name()[10] || a.spec_name()[11] != b.spec_name()[11] || a.spec_name()[12] != b.spec_name()[12]);
    }
}

// ---------------------------------------------------------------------------
// The primary slave of a bond.

/// The device of the first slave marked as primary, if any.
pub open spec fn primary_device(slaves: Seq<Slave>) -> Option<Seq<char>>
    decreases slaves.len(),
{
    if slaves.len() == 0 {
        None
    } else if slaves[0].primary == Some(true) {
        Some(slaves[0].device@)
    } else {
        primary_device(slaves.drop_first())
    }
}

impl Bond {
    /// The device of the first slave that is marked as primary.
    pub fn primary(self: &Bond) -> (r: Option<&String>)
        ensures
            match r {
                Some(d) => primary_device(self.slaves@) == Some(d@),
                None => primary_device(self.slaves@) is None,
            },
    {
        let mut i: usize = 0;
        assert(self.slaves@.skip(0) =~= self.slaves@);
        while i < self.slaves.len()
            invariant
                0 <= i <= self.slaves.len(),
                primary_device(self.slaves@) == primary_device(self.slaves@.skip(i as int)),
            decreases self.slaves.len() - i,
        {
            proof {
                assert(self.slaves@.skip(i as int).drop_first() =~= self.slaves@.skip(i + 1));
            }
            let s = &self.slaves[i];
            if s.primary.is_some() && s.primary.unwrap() {
                return Some(&s.device);
            }
            i = i + 1;
        }
        None
    }
}

// ---------------------------------------------------------------------------
// Bond options.

/// `m` with `k` set to `v` when `v` is present.
pub open spec fn insert_opt(
    m: Map<Seq<char>, Seq<char>>,
    k: Seq<char>,
    v: Option<Seq<char>>,
) -> Map<Seq<char>, Seq<char>> {
    match v {
        Some(x) => m.insert(k, x),
        None => m,
    }
}

/// The decimal rendering of an optional number.
pub open spec fn opt_decimal(v: Option<u32>) -> Option<Seq<char>> {
    match v {
        Some(x) => Some(decimal(x as nat)),
        None => None,
    }
}

/// `1` for true and `0` for false.
pub open spec fn flag(b: bool) -> Seq<char> {
    if b {
        "1"@
    } else {
        "0"@
    }
}

pub open spec fn opt_flag(v: Option<bool>) -> Option<Seq<char>> {
    match v {
        Some(x) => Some(flag(x)),
        None => None,
    }
}

/// The options that the MII monitor contributes.
pub open spec fn miimon_options(m: Map<Seq<char>, Seq<char>>, mii: Option<Miimon>) -> Map<
    Seq<char>,
    Seq<char>,
> {
    match mii {
        Some(x) => {
            let m1 = m.insert("miimon"@, decimal(x.frequency as nat)).insert(
                "carrier_detect"@,
                match x.carrier_detect {
                    CarrierDetect::Ioctl => "0"@,
                    CarrierDetect::Netif => "1"@,
                },
            );
            insert_opt(
                insert_opt(m1, "downdelay"@, opt_decimal(x.downdelay)),
                "updelay"@,
                opt_decimal(x.updelay),
            )
        },
        None => m,
    }
}

/// The options that the ARP monitor contributes.
pub open spec fn arpmon_options(m: Map<Seq<char>, Seq<char>>, arp: Option<ArpMon>) -> Map<
    Seq<char>,
    Seq<char>,
> {
    match arp {
        Some(a) => {
            let m1 = m.insert("arp_interval"@, decimal(a.interval as nat)).insert(
                "arp_validate"@,
                a.validate.spec_name(),
            );
            let m2 = if a.targets@.len() > 0 {
                m1.insert("arp_ip_target"@, join(views(a.targets@), ","@))
            } else {
                m1
            };
            match a.validate_targets {
                Some(t) => m2.insert("arp_all_targets"@, t.spec_name()),
                None => m2,
            }
        },
        None => m,
    }
}

/// The NetworkManager bond options that describe `b`.
pub open spec fn bond_options(b: Bond) -> Map<Seq<char>, Seq<char>> {
    let m0 = insert_opt(
        Map::empty().insert("mode"@, b.mode.spec_name()),
        "primary"@,
        primary_device(b.slaves@),
    );
    let m1 = arpmon_options(miimon_options(m0, b.miimon), b.arpmon);
    let m2 = insert_opt(
        insert_opt(
            m1,
            "fail_over_mac"@,
            match b.fail_over_mac {
                Some(f) => Some(f.spec_name()),
                None => None,
            },
        ),
        "xmit_hash_policy"@,
        match b.xmit_hash_policy {
            Some(x) => Some(x.spec_name()),
            None => None,
        },
    );
    let m3 = insert_opt(
        insert_opt(
            insert_opt(m2, "packets_per_slave"@, opt_decimal(b.packets_per_slave)),
            "tlb_dynamic_lb"@,
            opt_flag(b.tlb_dynamic_lb),
        ),
        "lacp_rate"@,
        match b.lacp_rate {
            Some(x) => Some(x.spec_name()),
            None => None,
        },
    );
    let m4 = insert_opt(
        insert_opt(
            insert_opt(
                m3,
                "ad_select"@,
                match b.ad_select {
                    Some(x) => Some(x.spec_name()),
                    None => None,
                },
            ),
            "ad_user_port_key"@,
            opt_decimal(b.ad_user_port_key),
        ),
        "ad_actor_sys_prio"@,
        opt_decimal(b.ad_actor_sys_prio),
    );
    let m5 = insert_opt(
        insert_opt(
            insert_opt(
                m4,
                "ad_actor_system"@,
                match b.ad_actor_system {
                    Some(x) => Some(x@),
                    None => None,
                },
            ),
            "min_links"@,
            opt_decimal(b.min_links),
        ),
        "primary_reselect"@,
        match b.primary_reselect {
            Some(x) => Some(x.spec_name()),
            None => None,
        },
    );
    insert_opt(
        insert_opt(
            insert_opt(
                insert_opt(
                    insert_opt(m5, "num_grat_arp"@, opt_decimal(b.num_grat_arp)),
                    "num_usol_na"@,
                    opt_decimal(b.num_usol_na),
                ),
                "lp_interval"@,
                opt_decimal(b.lp_interval),
            ),
            "resend_igmp"@,
            opt_decimal(b.resend_igmp),
        ),
        "all_slaves_active"@,
        opt_flag(b.all_slaves_active),
    )
}

fn put(d: &mut Dict<String>, key: &str, value: String)
    ensures
        old(d).wf() ==> final(d).wf(),
        final(d)@ == old(d)@.insert(key@, value@),
{
    d.insert(String::from_str(key), value);
}

fn put_decimal(d: &mut Dict<String>, key: &str, value: Option<u32>)
    ensures
        old(d).wf() ==> final(d).wf(),
        final(d)@ == insert_opt(old(d)@, key@, opt_decimal(value)),
{
    if let Some(v) = value {
        put(d, key, u32_to_decimal(v));
    }
}

fn put_name(d: &mut Dict<String>, key: &str, value: Option<&'static str>)
    ensures
        old(d).wf() ==> final(d).wf(),
        final(d)@ == insert_opt(
            old(d)@,
            key@,
            match value {
                Some(v) => Some(v@),
                None => None,
            },
        ),
{
    if let Some(v) = value {
        put(d, key, String::from_str(v));
    }
}

fn flag_str(b: bool) -> (r: &'static str)
    ensures
        r@ == flag(b),
{
    if b {
        "1"
    } else {
        "0"
    }
}

fn put_flag(d: &mut Dict<String>, key: &str, value: Option<bool>)
    ensures
        old(d).wf() ==> final(d).wf(),
        final(d)@ == insert_opt(old(d)@, key@, opt_flag(value)),
{
    if let Some(v) = value {
        put(d, key, String::from_str(flag_str(v)));
    }
}

fn put_miimon(d: &mut Dict<String>, mii: &Option<Miimon>)
    ensures
        old(d).wf() ==> final(d).wf(),
        final(d)@ == miimon_options(old(d)@, *mii),
{
    if let Some(m) = mii {
        put(d, "miimon", u32_to_decimal(m.frequency));
        let cd = match m.carrier_detect {
            CarrierDetect::Ioctl => "0",
            CarrierDetect::Netif => "1",
        };
        put(d, "carrier_detect", String::from_str(cd));
        put_decimal(d, "downdelay", m.downdelay);
        put_decimal(d, "updelay", m.updelay);
    }
}

fn put_arpmon(d: &mut Dict<String>, arp: &Option<ArpMon>)
    ensures
        old(d).wf() ==> final(d).wf(),
        final(d)@ == arpmon_options(old(d)@, *arp),
{
    if let Some(a) = arp {
        put(d, "arp_interval", u32_to_decimal(a.interval));
        put(d, "arp_validate", String::from_str(a.validate.name()));
        if a.targets.len() > 0 {
            put(d, "arp_ip_target", join_strings(&a.targets, ","));
        }
        if let Some(v) = &a.validate_targets {
            put(d, "arp_all_targets", String::from_str(v.name()));
        }
    }
}

impl Bond {
    /// The NetworkManager bond options of this bond: its mode, its primary
    /// slave, the monitor settings and every tunable that is set, each under
    /// the name that NetworkManager gives it.
    pub fn options(self) -> (r: Dict<String>)
        ensures
            r@ == bond_options(self),
            r.wf(),
    {
        let mut d: Dict<String> = Dict::new();
        put(&mut d, "mode", String::from_str(self.mode.name()));
        match self.primary() {
            Some(p) => put(&mut d, "primary", p.clone()),
            None => {},
        }
        put_miimon(&mut d, &self.miimon);
        put_arpmon(&mut d, &self.arpmon);
        put_name(
            &mut d,
            "fail_over_mac",
            match &self.fail_over_mac {
                Some(v) => Some(v.name()),
                None => None,
            },
        );
        put_name(
            &mut d,
            "xmit_hash_policy",
            match &self.xmit_hash_policy {
                Some(v) => Some(v.name()),
                None => None,
            },
        );
        put_decimal(&mut d, "packets_per_slave", self.packets_per_slave);
        put_flag(&mut d, "tlb_dynamic_lb", self.tlb_dynamic_lb);
        put_name(
            &mut d,
            "lacp_rate",
            match &self.lacp_rate {
                Some(v) => Some(v.name()),
                None => None,
            },
        );
        put_name(
            &mut d,
            "ad_select",
            match &self.ad_select {
                Some(v) => Some(v.name()),
                None => None,
            },
        );
        put_decimal(&mut d, "ad_user_port_key", self.ad_user_port_key);
        put_decimal(&mut d, "ad_actor_sys_prio", self.ad_actor_sys_prio);
        if let Some(v) = &self.ad_actor_system {
            put(&mut d, "ad_actor_system", v.clone());
        }
        put_decimal(&mut d, "min_links", self.min_links);
        put_name(
            &mut d,
            "primary_reselect",
            match &self.primary_reselect {
                Some(v) => Some(v.name()),
                None => None,
            },
        );
        put_decimal(&mut d, "num_grat_arp", self.num_grat_arp);
        put_decimal(&mut d, "num_usol_na", self.num_usol_na);
        put_decimal(&mut d, "lp_interval", self.lp_interval);
        put_decimal(&mut d, "resend_igmp", self.resend_igmp);
        put_flag(&mut d, "all_slaves_active", self.all_slaves_active);
        d
    }
}

/// `a` and `b` agree on the key `k`.
pub open spec fn agrees_on(a: Map<Seq<char>, Seq<char>>, b: Map<Seq<char>, Seq<char>>, k: Seq<char>) -> bool {
    &&& (a.contains_key(k) <==> b.contains_key(k))
    &&& (a.contains_key(k) ==> a[k] == b[k])
}

proof fn lemma_option_key_lengths()
    ensures
        "mode"@.len() == 4,
        "primary"@.len() == 7,
        "miimon"@.len() == 6,
        "carrier_detect"@.len() == 14,
        "downdelay"@.len() == 9,
        "updelay"@.len() == 7,
        "arp_interval"@.len() == 12,
        "arp_validate"@.len() == 12,
        "arp_ip_target"@.len() == 13,
        "arp_all_targets"@.len() == 15,
        "fail_over_mac"@.len() == 13,
        "xmit_hash_policy"@.len() == 16,
        "packets_per_slave"@.len() == 17,
        "tlb_dynamic_lb"@.len() == 14,
        "lacp_rate"@.len() == 9,
        "ad_select"@.len() == 9,
        "ad_user_port_key"@.len() == 16,
        "ad_actor_sys_prio"@.len() == 17,
        "ad_actor_system"@.len() == 15,
        "min_links"@.len() == 9,
        "primary_reselect"@.len() == 16,
        "num_grat_arp"@.len() == 12,
        "num_usol_na"@.len() == 11,
        "lp_interval"@.len() == 11,
        "resend_igmp"@.len() == 11,
        "all_slaves_active"@.len() == 17,
        "primary"@[0] != "updelay"@[0],
        "carrier_detect"@[0] != "tlb_dynamic_lb"@[0],
        "downdelay"@[0] != "lacp_rate"@[0],
        "downdelay"@[0] != "ad_select"@[0],
        "downdelay"@[0] != "min_links"@[0],
        "lacp_rate"@[0] != "ad_select"@[0],
        "lacp_rate"@[0] != "min_links"@[0],
        "ad_select"@[0] != "min_links"@[0],
        "arp_interval"@[4] != "arp_validate"@[4],
        "arp_interval"@[0] != "num_grat_arp"@[0],
        "arp_validate"@[0] != "num_grat_arp"@[0],
        "arp_ip_target"@[0] != "fail_over_mac"@[0],
        "arp_all_targets"@[1] != "ad_actor_system"@[1],
        "xmit_hash_policy"@[0] != "ad_user_port_key"@[0],
        "xmit_hash_policy"@[0] != "primary_reselect"@[0],
        "ad_user_port_key"@[0] != "primary_reselect"@[0],
        "packets_per_slave"@[0] != "ad_actor_sys_prio"@[0],
        "packets_per_slave"@[0] != "all_slaves_active"@[0],
        "ad_actor_sys_prio"@[1] != "all_slaves_active"@[1],
        "num_usol_na"@[0] != "lp_interval"@[0],
        "num_usol_na"@[0] != "resend_igmp"@[0],
        "lp_interval"@[0] != "resend_igmp"@[0],
{
    broadcast use vstd::string::group_string_axioms;

    reveal_strlit("mode");
    reveal_strlit("primary");
    reveal_strlit("miimon");
    reveal_strlit("carrier_detect");
    reveal_strlit("downdelay");
    reveal_strlit("updelay");
    reveal_strlit("arp_interval");
    reveal_strlit("arp_validate");
    reveal_strlit("arp_ip_target");
    reveal_strlit("arp_all_targets");
    reveal_strlit("fail_over_mac");
    reveal_strlit("xmit_hash_policy");
    reveal_strlit("packets_per_slave");
    reveal_strlit("tlb_dynamic_lb");
    reveal_strlit("lacp_rate");
    reveal_strlit("ad_select");
    reveal_strlit("ad_user_port_key");
    reveal_strlit("ad_actor_sys_prio");
    reveal_strlit("ad_actor_system");
    reveal_strlit("min_links");
    reveal_strlit("primary_reselect");
    reveal_strlit("num_grat_arp");
    reveal_strlit("num_usol_na");
    reveal_strlit("lp_interval");
    reveal_strlit("resend_igmp");
    reveal_strlit("all_slaves_active");
}

proof fn lemma_insert_opt_agrees(
    m: Map<Seq<char>, Seq<char>>,
    k: Seq<char>,
    v: Option<Seq<char>>,
    key: Seq<char>,
)
    requires
        key != k,
    ensures
        agrees_on(insert_opt(m, k, v), m, key),
{
}

proof fn lemma_monitor_options_agree(
    m: Map<Seq<char>, Seq<char>>,
    mii: Option<Miimon>,
    arp: Option<ArpMon>,
    key: Seq<char>,
)
    requires
        key != "miimon"@,
        key != "carrier_detect"@,
        key != "downdelay"@,
        key != "updelay"@,
        key != "arp_interval"@,
        key != "arp_validate"@,
        key != "arp_ip_target"@,
        key != "arp_all_targets"@,
        key != "fail_over_mac"@,
        key != "xmit_hash_policy"@,
        key != "packets_per_slave"@,
        key != "tlb_dynamic_lb"@,
        key != "lacp_rate"@,
        key != "ad_select"@,
        key != "ad_user_port_key"@,
        key != "ad_actor_sys_prio"@,
        key != "ad_actor_system"@,
        key != "min_links"@,
        key != "primary_reselect"@,
        key != "num_grat_arp"@,
        key != "num_usol_na"@,
        key != "lp_interval"@,
        key != "resend_igmp"@,
        key != "all_slaves_active"@,
    ensures
        agrees_on(arpmon_options(miimon_options(m, mii), arp), m, key),
{
}

/// Every bond's options name its mode, and name its primary slave exactly
/// when it has one.
pub proof fn lemma_bond_options_mode_and_primary(b: Bond)
    ensures
        bond_options(b).contains_key("mode"@),
        bond_options(b)["mode"@] == b.mode.spec_name(),
        bond_options(b).contains_key("primary"@) <==> primary_device(b.slaves@) is Some,
        primary_device(b.slaves@) matches Some(p) ==> bond_options(b)["primary"@] == p,
{
    lemma_option_key_lengths();
    let m0 = insert_opt(
        Map::empty().insert("mode"@, b.mode.spec_name()),
        "primary"@,
        primary_device(b.slaves@),
    );
    let m = bond_options(b);
    assert(agrees_on(m, m0, "mode"@) && agrees_on(m, m0, "primary"@)) by {
        lemma_bond_options_agree_with_start(b, "mode"@);
        lemma_bond_options_agree_with_start(b, "primary"@);
    }
}

/// The value of an optional setting as a bond option.
pub open spec fn named<T>(v: Option<T>, name: spec_fn(T) -> Seq<char>) -> Option<Seq<char>> {
    match v {
        Some(x) => Some(name(x)),
        None => None,
    }
}

/// Every bond's options hold, each under its NetworkManager name, the MII monitor's frequency, carrier detection (`0` for ioctl, `1` for netif) and
/// delays, and the ARP monitor's interval, validation, targets (joined with
/// `,`, only when there are some) and target validation: numbers in decimal, flags as `1`
/// or `0`, enumerations by name, and nothing when unset.
#[verifier::rlimit(100)]
#[verifier::spinoff_prover]
pub proof fn lemma_bond_options_monitor(b: Bond)
    ensures
        bond_options(b).get("miimon"@) == named(b.miimon, |m: Miimon| decimal(m.frequency as nat)),
        bond_options(b).get("carrier_detect"@) == named(
            b.miimon,
            |m: Miimon|
                match m.carrier_detect {
                    CarrierDetect::Ioctl => "0"@,
                    CarrierDetect::Netif => "1"@,
                },
        ),
        bond_options(b).get("downdelay"@) == match b.miimon {
            Some(m) => opt_decimal(m.downdelay),
            None => None,
        },
        bond_options(b).get("updelay"@) == match b.miimon {
            Some(m) => opt_decimal(m.updelay),
            None => None,
        },
        bond_options(b).get("arp_interval"@) == named(b.arpmon, |a: ArpMon| decimal(a.interval as nat)),
        bond_options(b).get("arp_validate"@) == named(b.arpmon, |a: ArpMon| a.validate.spec_name()),
        bond_options(b).get("arp_ip_target"@) == match b.arpmon {
            Some(a) => if a.targets@.len() > 0 {
                Some(join(views(a.targets@), ","@))
            } else {
                None
            },
            None => None,
        },
        bond_options(b).get("arp_all_targets"@) == match b.arpmon {
            Some(a) => named(a.validate_targets, |t: ArpValidateTargets| t.spec_name()),
            None => None,
        },
{
    lemma_option_key_lengths();
    let m0 = insert_opt(
        Map::empty().insert("mode"@, b.mode.spec_name()),
        "primary"@,
        primary_device(b.slaves@),
    );
    let m1 = arpmon_options(miimon_options(m0, b.miimon), b.arpmon);
    let n0 = insert_opt(m1, "fail_over_mac"@, match b.fail_over_mac { Some(f) => Some(f.spec_name()), None => None });
    let n1 = insert_opt(n0, "xmit_hash_policy"@, match b.xmit_hash_policy { Some(x) => Some(x.spec_name()), None => None });
    let n2 = insert_opt(n1, "packets_per_slave"@, opt_decimal(b.packets_per_slave));
    let n3 = insert_opt(n2, "tlb_dynamic_lb"@, opt_flag(b.tlb_dynamic_lb));
    let n4 = insert_opt(n3, "lacp_rate"@, match b.lacp_rate { Some(x) => Some(x.spec_name()), None => None });
    let n5 = insert_opt(n4, "ad_select"@, match b.ad_select { Some(x) => Some(x.spec_name()), None => None });
    let n6 = insert_opt(n5, "ad_user_port_key"@, opt_decimal(b.ad_user_port_key));
    let n7 = insert_opt(n6, "ad_actor_sys_prio"@, opt_decimal(b.ad_actor_sys_prio));
    let n8 = insert_opt(n7, "ad_actor_system"@, match b.ad_actor_system { Some(x) => Some(x@), None => None });
    let n9 = insert_opt(n8, "min_links"@, opt_decimal(b.min_links));
    let n10 = insert_opt(n9, "primary_reselect"@, match b.primary_reselect { Some(x) => Some(x.spec_name()), None => None });
    let n11 = insert_opt(n10, "num_grat_arp"@, opt_decimal(b.num_grat_arp));
    let n12 = insert_opt(n11, "num_usol_na"@, opt_decimal(b.num_usol_na));
    let n13 = insert_opt(n12, "lp_interval"@, opt_decimal(b.lp_interval));
    let n14 = insert_opt(n13, "resend_igmp"@, opt_decimal(b.resend_igmp));
    let n15 = insert_opt(n14, "all_slaves_active"@, opt_flag(b.all_slaves_active));
    assert(bond_options(b) == n15);
    assert(agrees_on(n15, m1, "miimon"@)) by {
        lemma_insert_opt_agrees(m1, "fail_over_mac"@, match b.fail_over_mac { Some(f) => Some(f.spec_name()), None => None }, "miimon"@);
        lemma_insert_opt_agrees(n0, "xmit_hash_policy"@, match b.xmit_hash_policy { Some(x) => Some(x.spec_name()), None => None }, "miimon"@);
        lemma_insert_opt_agrees(n1, "packets_per_slave"@, opt_decimal(b.packets_per_slave), "miimon"@);
        lemma_insert_opt_agrees(n2, "tlb_dynamic_lb"@, opt_flag(b.tlb_dynamic_lb), "miimon"@);
        lemma_insert_opt_agrees(n3, "lacp_rate"@, match b.lacp_rate { Some(x) => Some(x.spec_name()), None => None }, "miimon"@);
        lemma_insert_opt_agrees(n4, "ad_select"@, match b.ad_select { Some(x) => Some(x.spec_name()), None => None }, "miimon"@);
        lemma_insert_opt_agrees(n5, "ad_user_port_key"@, opt_decimal(b.ad_user_port_key), "miimon"@);
        lemma_insert_opt_agrees(n6, "ad_actor_sys_prio"@, opt_decimal(b.ad_actor_sys_prio), "miimon"@);
        lemma_insert_opt_agrees(n7, "ad_actor_system"@, match b.ad_actor_system { Some(x) => Some(x@), None => None }, "miimon"@);
        lemma_insert_opt_agrees(n8, "min_links"@, opt_decimal(b.min_links), "miimon"@);
        lemma_insert_opt_agrees(n9, "primary_reselect"@, match b.primary_reselect { Some(x) => Some(x.spec_name()), None => None }, "miimon"@);
        lemma_insert_opt_agrees(n10, "num_grat_arp"@, opt_decimal(b.num_grat_arp), "miimon"@);
        lemma_insert_opt_agrees(n11, "num_usol_na"@, opt_decimal(b.num_usol_na), "miimon"@);
        lemma_insert_opt_agrees(n12, "lp_interval"@, opt_decimal(b.lp_interval), "miimon"@);
        lemma_insert_opt_agrees(n13, "resend_igmp"@, opt_decimal(b.resend_igmp), "miimon"@);
        lemma_insert_opt_agrees(n14, "all_slaves_active"@, opt_flag(b.all_slaves_active), "miimon"@);
    }
    assert(agrees_on(n15, m1, "carrier_detect"@)) by {
        lemma_insert_opt_agrees(m1, "fail_over_mac"@, match b.fail_over_mac { Some(f) => Some(f.spec_name()), None => None }, "carrier_detect"@);
        lemma_insert_opt_agrees(n0, "xmit_hash_policy"@, match b.xmit_hash_policy { Some(x) => Some(x.spec_name()), None => None }, "carrier_detect"@);
        lemma_insert_opt_agrees(n1, "packets_per_slave"@, opt_decimal(b.packets_per_slave), "carrier_detect"@);
        lemma_insert_opt_agrees(n2, "tlb_dynamic_lb"@, opt_flag(b.tlb_dynamic_lb), "carrier_detect"@);
        lemma_insert_opt_agrees(n3, "lacp_rate"@, match b.lacp_rate { Some(x) => Some(x.spec_name()), None => None }, "carrier_detect"@);
        lemma_insert_opt_agrees(n4, "ad_select"@, match b.ad_select { Some(x) => Some(x.spec_name()), None => None }, "carrier_detect"@);
        lemma_insert_opt_agrees(n5, "ad_user_port_key"@, opt_decimal(b.ad_user_port_key), "carrier_detect"@);
        lemma_insert_opt_agrees(n6, "ad_actor_sys_prio"@, opt_decimal(b.ad_actor_sys_prio), "carrier_detect"@);
        lemma_insert_opt_agrees(n7, "ad_actor_system"@, match b.ad_actor_system { Some(x) => Some(x@), None => None }, "carrier_detect"@);
        lemma_insert_opt_agrees(n8, "min_links"@, opt_decimal(b.min_links), "carrier_detect"@);
        lemma_insert_opt_agrees(n9, "primary_reselect"@, match b.primary_reselect { Some(x) => Some(x.spec_name()), None => None }, "carrier_detect"@);
        lemma_insert_opt_agrees(n10, "num_grat_arp"@, opt_decimal(b.num_grat_arp), "carrier_detect"@);
        lemma_insert_opt_agrees(n11, "num_usol_na"@, opt_decimal(b.num_usol_na), "carrier_detect"@);
        lemma_insert_opt_agrees(n12, "lp_interval"@, opt_decimal(b.lp_interval), "carrier_detect"@);
        lemma_insert_opt_agrees(n13, "resend_igmp"@, opt_decimal(b.resend_igmp), "carrier_detect"@);
        lemma_insert_opt_agrees(n14, "all_slaves_active"@, opt_flag(b.all_slaves_active), "carrier_detect"@);
    }
    assert(agrees_on(n15, m1, "downdelay"@)) by {
        lemma_insert_opt_agrees(m1, "fail_over_mac"@, match b.fail_over_mac { Some(f) => Some(f.spec_name()), None => None }, "downdelay"@);
        lemma_insert_opt_agrees(n0, "xmit_hash_policy"@, match b.xmit_hash_policy { Some(x) => Some(x.spec_name()), None => None }, "downdelay"@);
        lemma_insert_opt_agrees(n1, "packets_per_slave"@, opt_decimal(b.packets_per_slave), "downdelay"@);
        lemma_insert_opt_agrees(n2, "tlb_dynamic_lb"@, opt_flag(b.tlb_dynamic_lb), "downdelay"@);
        lemma_insert_opt_agrees(n3, "lacp_rate"@, match b.lacp_rate { Some(x) => Some(x.spec_name()), None => None }, "downdelay"@);
        lemma_insert_opt_agrees(n4, "ad_select"@, match b.ad_select { Some(x) => Some(x.spec_name()), None => None }, "downdelay"@);
        lemma_insert_opt_agrees(n5, "ad_user_port_key"@, opt_decimal(b.ad_user_port_key), "downdelay"@);
        lemma_insert_opt_agrees(n6, "ad_actor_sys_prio"@, opt_decimal(b.ad_actor_sys_prio), "downdelay"@);
        lemma_insert_opt_agrees(n7, "ad_actor_system"@, match b.ad_actor_system { Some(x) => Some(x@), None => None }, "downdelay"@);
        lemma_insert_opt_agrees(n8, "min_links"@, opt_decimal(b.min_links), "downdelay"@);
        lemma_insert_opt_agrees(n9, "primary_reselect"@, match b.primary_reselect { Some(x) => Some(x.spec_name()), None => None }, "downdelay"@);
        lemma_insert_opt_agrees(n10, "num_grat_arp"@, opt_decimal(b.num_grat_arp), "downdelay"@);
        lemma_insert_opt_agrees(n11, "num_usol_na"@, opt_decimal(b.num_usol_na), "downdelay"@);
        lemma_insert_opt_agrees(n12, "lp_interval"@, opt_decimal(b.lp_interval), "downdelay"@);
        lemma_insert_opt_agrees(n13, "resend_igmp"@, opt_decimal(b.resend_igmp), "downdelay"@);
        lemma_insert_opt_agrees(n14, "all_slaves_active"@, opt_flag(b.all_slaves_active), "downdelay"@);
    }
    assert(agrees_on(n15, m1, "updelay"@)) by {
        lemma_insert_opt_agrees(m1, "fail_over_mac"@, match b.fail_over_mac { Some(f) => Some(f.spec_name()), None => None }, "updelay"@);
        lemma_insert_opt_agrees(n0, "xmit_hash_policy"@, match b.xmit_hash_policy { Some(x) => Some(x.spec_name()), None => None }, "updelay"@);
        lemma_insert_opt_agrees(n1, "packets_per_slave"@, opt_decimal(b.packets_per_slave), "updelay"@);
        lemma_insert_opt_agrees(n2, "tlb_dynamic_lb"@, opt_flag(b.tlb_dynamic_lb), "updelay"@);
        lemma_insert_opt_agrees(n3, "lacp_rate"@, match b.lacp_rate { Some(x) => Some(x.spec_name()), None => None }, "updelay"@);
        lemma_insert_opt_agrees(n4, "ad_select"@, match b.ad_select { Some(x) => Some(x.spec_name()), None => None }, "updelay"@);
        lemma_insert_opt_agrees(n5, "ad_user_port_key"@, opt_decimal(b.ad_user_port_key), "updelay"@);
        lemma_insert_opt_agrees(n6, "ad_actor_sys_prio"@, opt_decimal(b.ad_actor_sys_prio), "updelay"@);
        lemma_insert_opt_agrees(n7, "ad_actor_system"@, match b.ad_actor_system { Some(x) => Some(x@), None => None }, "updelay"@);
        lemma_insert_opt_agrees(n8, "min_links"@, opt_decimal(b.min_links), "updelay"@);
        lemma_insert_opt_agrees(n9, "primary_reselect"@, match b.primary_reselect { Some(x) => Some(x.spec_name()), None => None }, "updelay"@);
        lemma_insert_opt_agrees(n10, "num_grat_arp"@, opt_decimal(b.num_grat_arp), "updelay"@);
        lemma_insert_opt_agrees(n11, "num_usol_na"@, opt_decimal(b.num_usol_na), "updelay"@);
        lemma_insert_opt_agrees(n12, "lp_interval"@, opt_decimal(b.lp_interval), "updelay"@);
        lemma_insert_opt_agrees(n13, "resend_igmp"@, opt_decimal(b.resend_igmp), "updelay"@);
        lemma_insert_opt_agrees(n14, "all_slaves_active"@, opt_flag(b.all_slaves_active), "updelay"@);
    }
    assert(agrees_on(n15, m1, "arp_interval"@)) by {
        lemma_insert_opt_agrees(m1, "fail_over_mac"@, match b.fail_over_mac { Some(f) => Some(f.spec_name()), None => None }, "arp_interval"@);
        lemma_insert_opt_agrees(n0, "xmit_hash_policy"@, match b.xmit_hash_policy { Some(x) => Some(x.spec_name()), None => None }, "arp_interval"@);
        lemma_insert_opt_agrees(n1, "packets_per_slave"@, opt_decimal(b.packets_per_slave), "arp_interval"@);
        lemma_insert_opt_agrees(n2, "tlb_dynamic_lb"@, opt_flag(b.tlb_dynamic_lb), "arp_interval"@);
        lemma_insert_opt_agrees(n3, "lacp_rate"@, match b.lacp_rate { Some(x) => Some(x.spec_name()), None => None }, "arp_interval"@);
        lemma_insert_opt_agrees(n4, "ad_select"@, match b.ad_select { Some(x) => Some(x.spec_name()), None => None }, "arp_interval"@);
        lemma_insert_opt_agrees(n5, "ad_user_port_key"@, opt_decimal(b.ad_user_port_key), "arp_interval"@);
        lemma_insert_opt_agrees(n6, "ad_actor_sys_prio"@, opt_decimal(b.ad_actor_sys_prio), "arp_interval"@);
        lemma_insert_opt_agrees(n7, "ad_actor_system"@, match b.ad_actor_system { Some(x) => Some(x@), None => None }, "arp_interval"@);
        lemma_insert_opt_agrees(n8, "min_links"@, opt_decimal(b.min_links), "arp_interval"@);
        lemma_insert_opt_agrees(n9, "primary_reselect"@, match b.primary_reselect { Some(x) => Some(x.spec_name()), None => None }, "arp_interval"@);
        lemma_insert_opt_agrees(n10, "num_grat_arp"@, opt_decimal(b.num_grat_arp), "arp_interval"@);
        lemma_insert_opt_agrees(n11, "num_usol_na"@, opt_decimal(b.num_usol_na), "arp_interval"@);
        lemma_insert_opt_agrees(n12, "lp_interval"@, opt_decimal(b.lp_interval), "arp_interval"@);
        lemma_insert_opt_agrees(n13, "resend_igmp"@, opt_decimal(b.resend_igmp), "arp_interval"@);
        lemma_insert_opt_agrees(n14, "all_slaves_active"@, opt_flag(b.all_slaves_active), "arp_interval"@);
    }
    assert(agrees_on(n15, m1, "arp_validate"@)) by {
        lemma_insert_opt_agrees(m1, "fail_over_mac"@, match b.fail_over_mac { Some(f) => Some(f.spec_name()), None => None }, "arp_validate"@);
        lemma_insert_opt_agrees(n0, "xmit_hash_policy"@, match b.xmit_hash_policy { Some(x) => Some(x.spec_name()), None => None }, "arp_validate"@);
        lemma_insert_opt_agrees(n1, "packets_per_slave"@, opt_decimal(b.packets_per_slave), "arp_validate"@);
        lemma_insert_opt_agrees(n2, "tlb_dynamic_lb"@, opt_flag(b.tlb_dynamic_lb), "arp_validate"@);
        lemma_insert_opt_agrees(n3, "lacp_rate"@, match b.lacp_rate { Some(x) => Some(x.spec_name()), None => None }, "arp_validate"@);
        lemma_insert_opt_agrees(n4, "ad_select"@, match b.ad_select { Some(x) => Some(x.spec_name()), None => None }, "arp_validate"@);
        lemma_insert_opt_agrees(n5, "ad_user_port_key"@, opt_decimal(b.ad_user_port_key), "arp_validate"@);
        lemma_insert_opt_agrees(n6, "ad_actor_sys_prio"@, opt_decimal(b.ad_actor_sys_prio), "arp_validate"@);
        lemma_insert_opt_agrees(n7, "ad_actor_system"@, match b.ad_actor_system { Some(x) => Some(x@), None => None }, "arp_validate"@);
        lemma_insert_opt_agrees(n8, "min_links"@, opt_decimal(b.min_links), "arp_validate"@);
        lemma_insert_opt_agrees(n9, "primary_reselect"@, match b.primary_reselect { Some(x) => Some(x.spec_name()), None => None }, "arp_validate"@);
        lemma_insert_opt_agrees(n10, "num_grat_arp"@, opt_decimal(b.num_grat_arp), "arp_validate"@);
        lemma_insert_opt_agrees(n11, "num_usol_na"@, opt_decimal(b.num_usol_na), "arp_validate"@);
        lemma_insert_opt_agrees(n12, "lp_interval"@, opt_decimal(b.lp_interval), "arp_validate"@);
        lemma_insert_opt_agrees(n13, "resend_igmp"@, opt_decimal(b.resend_igmp), "arp_validate"@);
        lemma_insert_opt_agrees(n14, "all_slaves_active"@, opt_flag(b.all_slaves_active), "arp_validate"@);
    }
    assert(agrees_on(n15, m1, "arp_ip_target"@)) by {
        lemma_insert_opt_agrees(m1, "fail_over_mac"@, match b.fail_over_mac { Some(f) => Some(f.spec_name()), None => None }, "arp_ip_target"@);
        lemma_insert_opt_agrees(n0, "xmit_hash_policy"@, match b.xmit_hash_policy { Some(x) => Some(x.spec_name()), None => None }, "arp_ip_target"@);
        lemma_insert_opt_agrees(n1, "packets_per_slave"@, opt_decimal(b.packets_per_slave), "arp_ip_target"@);
        lemma_insert_opt_agrees(n2, "tlb_dynamic_lb"@, opt_flag(b.tlb_dynamic_lb), "arp_ip_target"@);
        lemma_insert_opt_agrees(n3, "lacp_rate"@, match b.lacp_rate { Some(x) => Some(x.spec_name()), None => None }, "arp_ip_target"@);
        lemma_insert_opt_agrees(n4, "ad_select"@, match b.ad_select { Some(x) => Some(x.spec_name()), None => None }, "arp_ip_target"@);
        lemma_insert_opt_agrees(n5, "ad_user_port_key"@, opt_decimal(b.ad_user_port_key), "arp_ip_target"@);
        lemma_insert_opt_agrees(n6, "ad_actor_sys_prio"@, opt_decimal(b.ad_actor_sys_prio), "arp_ip_target"@);
        lemma_insert_opt_agrees(n7, "ad_actor_system"@, match b.ad_actor_system { Some(x) => Some(x@), None => None }, "arp_ip_target"@);
        lemma_insert_opt_agrees(n8, "min_links"@, opt_decimal(b.min_links), "arp_ip_target"@);
        lemma_insert_opt_agrees(n9, "primary_reselect"@, match b.primary_reselect { Some(x) => Some(x.spec_name()), None => None }, "arp_ip_target"@);
        lemma_insert_opt_agrees(n10, "num_grat_arp"@, opt_decimal(b.num_grat_arp), "arp_ip_target"@);
        lemma_insert_opt_agrees(n11, "num_usol_na"@, opt_decimal(b.num_usol_na), "arp_ip_target"@);
        lemma_insert_opt_agrees(n12, "lp_interval"@, opt_decimal(b.lp_interval), "arp_ip_target"@);
        lemma_insert_opt_agrees(n13, "resend_igmp"@, opt_decimal(b.resend_igmp), "arp_ip_target"@);
        lemma_insert_opt_agrees(n14, "all_slaves_active"@, opt_flag(b.all_slaves_active), "arp_ip_target"@);
    }
    assert(agrees_on(n15, m1, "arp_all_targets"@)) by {
        lemma_insert_opt_agrees(m1, "fail_over_mac"@, match b.fail_over_mac { Some(f) => Some(f.spec_name()), None => None }, "arp_all_targets"@);
        lemma_insert_opt_agrees(n0, "xmit_hash_policy"@, match b.xmit_hash_policy { Some(x) => Some(x.spec_name()), None => None }, "arp_all_targets"@);
        lemma_insert_opt_agrees(n1, "packets_per_slave"@, opt_decimal(b.packets_per_slave), "arp_all_targets"@);
        lemma_insert_opt_agrees(n2, "tlb_dynamic_lb"@, opt_flag(b.tlb_dynamic_lb), "arp_all_targets"@);
        lemma_insert_opt_agrees(n3, "lacp_rate"@, match b.lacp_rate { Some(x) => Some(x.spec_name()), None => None }, "arp_all_targets"@);
        lemma_insert_opt_agrees(n4, "ad_select"@, match b.ad_select { Some(x) => Some(x.spec_name()), None => None }, "arp_all_targets"@);
        lemma_insert_opt_agrees(n5, "ad_user_port_key"@, opt_decimal(b.ad_user_port_key), "arp_all_targets"@);
        lemma_insert_opt_agrees(n6, "ad_actor_sys_prio"@, opt_decimal(b.ad_actor_sys_prio), "arp_all_targets"@);
        lemma_insert_opt_agrees(n7, "ad_actor_system"@, match b.ad_actor_system { Some(x) => Some(x@), None => None }, "arp_all_targets"@);
        lemma_insert_opt_agrees(n8, "min_links"@, opt_decimal(b.min_links), "arp_all_targets"@);
        lemma_insert_opt_agrees(n9, "primary_reselect"@, match b.primary_reselect { Some(x) => Some(x.spec_name()), None => None }, "arp_all_targets"@);
        lemma_insert_opt_agrees(n10, "num_grat_arp"@, opt_decimal(b.num_grat_arp), "arp_all_targets"@);
        lemma_insert_opt_agrees(n11, "num_usol_na"@, opt_decimal(b.num_usol_na), "arp_all_targets"@);
        lemma_insert_opt_agrees(n12, "lp_interval"@, opt_decimal(b.lp_interval), "arp_all_targets"@);
        lemma_insert_opt_agrees(n13, "resend_igmp"@, opt_decimal(b.resend_igmp), "arp_all_targets"@);
        lemma_insert_opt_agrees(n14, "all_slaves_active"@, opt_flag(b.all_slaves_active), "arp_all_targets"@);
    }
}

/// Every bond's options hold, each under its NetworkManager name, each set tunable among the fail-over MAC policy, the transmit hash
/// policy, packets per slave, dynamic TLB, the LACP rate, the aggregator
/// selection and the aggregator port key and system priority: numbers in decimal, flags as `1`
/// or `0`, enumerations by name, and nothing when unset.
#[verifier::rlimit(100)]
#[verifier::spinoff_prover]
pub proof fn lemma_bond_options_tunables(b: Bond)
    ensures
        bond_options(b).get("fail_over_mac"@) == named(b.fail_over_mac, |f: FailOverMac| f.spec_name()),
        bond_options(b).get("xmit_hash_policy"@) == named(
            b.xmit_hash_policy,
            |x: XmitHashPolicy| x.spec_name(),
        ),
        bond_options(b).get("packets_per_slave"@) == opt_decimal(b.packets_per_slave),
        bond_options(b).get("tlb_dynamic_lb"@) == named(b.tlb_dynamic_lb, |x: bool| if x { "1"@ } else { "0"@ }),
        bond_options(b).get("lacp_rate"@) == named(b.lacp_rate, |x: LacpRate| x.spec_name()),
        bond_options(b).get("ad_select"@) == named(b.ad_select, |x: AdSelect| x.spec_name()),
        bond_options(b).get("ad_user_port_key"@) == opt_decimal(b.ad_user_port_key),
        bond_options(b).get("ad_actor_sys_prio"@) == opt_decimal(b.ad_actor_sys_prio),
{
    lemma_option_key_lengths();
    let m0 = insert_opt(
        Map::empty().insert("mode"@, b.mode.spec_name()),
        "primary"@,
        primary_device(b.slaves@),
    );
    let m1 = arpmon_options(miimon_options(m0, b.miimon), b.arpmon);
    let n0 = insert_opt(m1, "fail_over_mac"@, match b.fail_over_mac { Some(f) => Some(f.spec_name()), None => None });
    let n1 = insert_opt(n0, "xmit_hash_policy"@, match b.xmit_hash_policy { Some(x) => Some(x.spec_name()), None => None });
    let n2 = insert_opt(n1, "packets_per_slave"@, opt_decimal(b.packets_per_slave));
    let n3 = insert_opt(n2, "tlb_dynamic_lb"@, opt_flag(b.tlb_dynamic_lb));
    let n4 = insert_opt(n3, "lacp_rate"@, match b.lacp_rate { Some(x) => Some(x.spec_name()), None => None });
    let n5 = insert_opt(n4, "ad_select"@, match b.ad_select { Some(x) => Some(x.spec_name()), None => None });
    let n6 = insert_opt(n5, "ad_user_port_key"@, opt_decimal(b.ad_user_port_key));
    let n7 = insert_opt(n6, "ad_actor_sys_prio"@, opt_decimal(b.ad_actor_sys_prio));
    let n8 = insert_opt(n7, "ad_actor_system"@, match b.ad_actor_system { Some(x) => Some(x@), None => None });
    let n9 = insert_opt(n8, "min_links"@, opt_decimal(b.min_links));
    let n10 = insert_opt(n9, "primary_reselect"@, match b.primary_reselect { Some(x) => Some(x.spec_name()), None => None });
    let n11 = insert_opt(n10, "num_grat_arp"@, opt_decimal(b.num_grat_arp));
    let n12 = insert_opt(n11, "num_usol_na"@, opt_decimal(b.num_usol_na));
    let n13 = insert_opt(n12, "lp_interval"@, opt_decimal(b.lp_interval));
    let n14 = insert_opt(n13, "resend_igmp"@, opt_decimal(b.resend_igmp));
    let n15 = insert_opt(n14, "all_slaves_active"@, opt_flag(b.all_slaves_active));
    assert(bond_options(b) == n15);
    assert(agrees_on(n15, n0, "fail_over_mac"@)) by {
        lemma_insert_opt_agrees(n0, "xmit_hash_policy"@, match b.xmit_hash_policy { Some(x) => Some(x.spec_name()), None => None }, "fail_over_mac"@);
        lemma_insert_opt_agrees(n1, "packets_per_slave"@, opt_decimal(b.packets_per_slave), "fail_over_mac"@);
        lemma_insert_opt_agrees(n2, "tlb_dynamic_lb"@, opt_flag(b.tlb_dynamic_lb), "fail_over_mac"@);
        lemma_insert_opt_agrees(n3, "lacp_rate"@, match b.lacp_rate { Some(x) => Some(x.spec_name()), None => None }, "fail_over_mac"@);
        lemma_insert_opt_agrees(n4, "ad_select"@, match b.ad_select { Some(x) => Some(x.spec_name()), None => None }, "fail_over_mac"@);
        lemma_insert_opt_agrees(n5, "ad_user_port_key"@, opt_decimal(b.ad_user_port_key), "fail_over_mac"@);
        lemma_insert_opt_agrees(n6, "ad_actor_sys_prio"@, opt_decimal(b.ad_actor_sys_prio), "fail_over_mac"@);
        lemma_insert_opt_agrees(n7, "ad_actor_system"@, match b.ad_actor_system { Some(x) => Some(x@), None => None }, "fail_over_mac"@);
        lemma_insert_opt_agrees(n8, "min_links"@, opt_decimal(b.min_links), "fail_over_mac"@);
        lemma_insert_opt_agrees(n9, "primary_reselect"@, match b.primary_reselect { Some(x) => Some(x.spec_name()), None => None }, "fail_over_mac"@);
        lemma_insert_opt_agrees(n10, "num_grat_arp"@, opt_decimal(b.num_grat_arp), "fail_over_mac"@);
        lemma_insert_opt_agrees(n11, "num_usol_na"@, opt_decimal(b.num_usol_na), "fail_over_mac"@);
        lemma_insert_opt_agrees(n12, "lp_interval"@, opt_decimal(b.lp_interval), "fail_over_mac"@);
        lemma_insert_opt_agrees(n13, "resend_igmp"@, opt_decimal(b.resend_igmp), "fail_over_mac"@);
        lemma_insert_opt_agrees(n14, "all_slaves_active"@, opt_flag(b.all_slaves_active), "fail_over_mac"@);
    }
    assert(agrees_on(n15, n1, "xmit_hash_policy"@)) by {
        lemma_insert_opt_agrees(n1, "packets_per_slave"@, opt_decimal(b.packets_per_slave), "xmit_hash_policy"@);
        lemma_insert_opt_agrees(n2, "tlb_dynamic_lb"@, opt_flag(b.tlb_dynamic_lb), "xmit_hash_policy"@);
        lemma_insert_opt_agrees(n3, "lacp_rate"@, match b.lacp_rate { Some(x) => Some(x.spec_name()), None => None }, "xmit_hash_policy"@);
        lemma_insert_opt_agrees(n4, "ad_select"@, match b.ad_select { Some(x) => Some(x.spec_name()), None => None }, "xmit_hash_policy"@);
        lemma_insert_opt_agrees(n5, "ad_user_port_key"@, opt_decimal(b.ad_user_port_key), "xmit_hash_policy"@);
        lemma_insert_opt_agrees(n6, "ad_actor_sys_prio"@, opt_decimal(b.ad_actor_sys_prio), "xmit_hash_policy"@);
        lemma_insert_opt_agrees(n7, "ad_actor_system"@, match b.ad_actor_system { Some(x) => Some(x@), None => None }, "xmit_hash_policy"@);
        lemma_insert_opt_agrees(n8, "min_links"@, opt_decimal(b.min_links), "xmit_hash_policy"@);
        lemma_insert_opt_agrees(n9, "primary_reselect"@, match b.primary_reselect { Some(x) => Some(x.spec_name()), None => None }, "xmit_hash_policy"@);
        lemma_insert_opt_agrees(n10, "num_grat_arp"@, opt_decimal(b.num_grat_arp), "xmit_hash_policy"@);
        lemma_insert_opt_agrees(n11, "num_usol_na"@, opt_decimal(b.num_usol_na), "xmit_hash_policy"@);
        lemma_insert_opt_agrees(n12, "lp_interval"@, opt_decimal(b.lp_interval), "xmit_hash_policy"@);
        lemma_insert_opt_agrees(n13, "resend_igmp"@, opt_decimal(b.resend_igmp), "xmit_hash_policy"@);
        lemma_insert_opt_agrees(n14, "all_slaves_active"@, opt_flag(b.all_slaves_active), "xmit_hash_policy"@);
    }
    assert(agrees_on(n15, n2, "packets_per_slave"@)) by {
        lemma_insert_opt_agrees(n2, "tlb_dynamic_lb"@, opt_flag(b.tlb_dynamic_lb), "packets_per_slave"@);
        lemma_insert_opt_agrees(n3, "lacp_rate"@, match b.lacp_rate { Some(x) => Some(x.spec_name()), None => None }, "packets_per_slave"@);
        lemma_insert_opt_agrees(n4, "ad_select"@, match b.ad_select { Some(x) => Some(x.spec_name()), None => None }, "packets_per_slave"@);
        lemma_insert_opt_agrees(n5, "ad_user_port_key"@, opt_decimal(b.ad_user_port_key), "packets_per_slave"@);
        lemma_insert_opt_agrees(n6, "ad_actor_sys_prio"@, opt_decimal(b.ad_actor_sys_prio), "packets_per_slave"@);
        lemma_insert_opt_agrees(n7, "ad_actor_system"@, match b.ad_actor_system { Some(x) => Some(x@), None => None }, "packets_per_slave"@);
        lemma_insert_opt_agrees(n8, "min_links"@, opt_decimal(b.min_links), "packets_per_slave"@);
        lemma_insert_opt_agrees(n9, "primary_reselect"@, match b.primary_reselect { Some(x) => Some(x.spec_name()), None => None }, "packets_per_slave"@);
        lemma_insert_opt_agrees(n10, "num_grat_arp"@, opt_decimal(b.num_grat_arp), "packets_per_slave"@);
        lemma_insert_opt_agrees(n11, "num_usol_na"@, opt_decimal(b.num_usol_na), "packets_per_slave"@);
        lemma_insert_opt_agrees(n12, "lp_interval"@, opt_decimal(b.lp_interval), "packets_per_slave"@);
        lemma_insert_opt_agrees(n13, "resend_igmp"@, opt_decimal(b.resend_igmp), "packets_per_slave"@);
        lemma_insert_opt_agrees(n14, "all_slaves_active"@, opt_flag(b.all_slaves_active), "packets_per_slave"@);
    }
    assert(agrees_on(n15, n3, "tlb_dynamic_lb"@)) by {
        lemma_insert_opt_agrees(n3, "lacp_rate"@, match b.lacp_rate { Some(x) => Some(x.spec_name()), None => None }, "tlb_dynamic_lb"@);
        lemma_insert_opt_agrees(n4, "ad_select"@, match b.ad_select { Some(x) => Some(x.spec_name()), None => None }, "tlb_dynamic_lb"@);
        lemma_insert_opt_agrees(n5, "ad_user_port_key"@, opt_decimal(b.ad_user_port_key), "tlb_dynamic_lb"@);
        lemma_insert_opt_agrees(n6, "ad_actor_sys_prio"@, opt_decimal(b.ad_actor_sys_prio), "tlb_dynamic_lb"@);
        lemma_insert_opt_agrees(n7, "ad_actor_system"@, match b.ad_actor_system { Some(x) => Some(x@), None => None }, "tlb_dynamic_lb"@);
        lemma_insert_opt_agrees(n8, "min_links"@, opt_decimal(b.min_links), "tlb_dynamic_lb"@);
        lemma_insert_opt_agrees(n9, "primary_reselect"@, match b.primary_reselect { Some(x) => Some(x.spec_name()), None => None }, "tlb_dynamic_lb"@);
        lemma_insert_opt_agrees(n10, "num_grat_arp"@, opt_decimal(b.num_grat_arp), "tlb_dynamic_lb"@);
        lemma_insert_opt_agrees(n11, "num_usol_na"@, opt_decimal(b.num_usol_na), "tlb_dynamic_lb"@);
        lemma_insert_opt_agrees(n12, "lp_interval"@, opt_decimal(b.lp_interval), "tlb_dynamic_lb"@);
        lemma_insert_opt_agrees(n13, "resend_igmp"@, opt_decimal(b.resend_igmp), "tlb_dynamic_lb"@);
        lemma_insert_opt_agrees(n14, "all_slaves_active"@, opt_flag(b.all_slaves_active), "tlb_dynamic_lb"@);
    }
    assert(agrees_on(n15, n4, "lacp_rate"@)) by {
        lemma_insert_opt_agrees(n4, "ad_select"@, match b.ad_select { Some(x) => Some(x.spec_name()), None => None }, "lacp_rate"@);
        lemma_insert_opt_agrees(n5, "ad_user_port_key"@, opt_decimal(b.ad_user_port_key), "lacp_rate"@);
        lemma_insert_opt_agrees(n6, "ad_actor_sys_prio"@, opt_decimal(b.ad_actor_sys_prio), "lacp_rate"@);
        lemma_insert_opt_agrees(n7, "ad_actor_system"@, match b.ad_actor_system { Some(x) => Some(x@), None => None }, "lacp_rate"@);
        lemma_insert_opt_agrees(n8, "min_links"@, opt_decimal(b.min_links), "lacp_rate"@);
        lemma_insert_opt_agrees(n9, "primary_reselect"@, match b.primary_reselect { Some(x) => Some(x.spec_name()), None => None }, "lacp_rate"@);
        lemma_insert_opt_agrees(n10, "num_grat_arp"@, opt_decimal(b.num_grat_arp), "lacp_rate"@);
        lemma_insert_opt_agrees(n11, "num_usol_na"@, opt_decimal(b.num_usol_na), "lacp_rate"@);
        lemma_insert_opt_agrees(n12, "lp_interval"@, opt_decimal(b.lp_interval), "lacp_rate"@);
        lemma_insert_opt_agrees(n13, "resend_igmp"@, opt_decimal(b.resend_igmp), "lacp_rate"@);
        lemma_insert_opt_agrees(n14, "all_slaves_active"@, opt_flag(b.all_slaves_active), "lacp_rate"@);
    }
    assert(agrees_on(n15, n5, "ad_select"@)) by {
        lemma_insert_opt_agrees(n5, "ad_user_port_key"@, opt_decimal(b.ad_user_port_key), "ad_select"@);
        lemma_insert_opt_agrees(n6, "ad_actor_sys_prio"@, opt_decimal(b.ad_actor_sys_prio), "ad_select"@);
        lemma_insert_opt_agrees(n7, "ad_actor_system"@, match b.ad_actor_system { Some(x) => Some(x@), None => None }, "ad_select"@);
        lemma_insert_opt_agrees(n8, "min_links"@, opt_decimal(b.min_links), "ad_select"@);
        lemma_insert_opt_agrees(n9, "primary_reselect"@, match b.primary_reselect { Some(x) => Some(x.spec_name()), None => None }, "ad_select"@);
        lemma_insert_opt_agrees(n10, "num_grat_arp"@, opt_decimal(b.num_grat_arp), "ad_select"@);
        lemma_insert_opt_agrees(n11, "num_usol_na"@, opt_decimal(b.num_usol_na), "ad_select"@);
        lemma_insert_opt_agrees(n12, "lp_interval"@, opt_decimal(b.lp_interval), "ad_select"@);
        lemma_insert_opt_agrees(n13, "resend_igmp"@, opt_decimal(b.resend_igmp), "ad_select"@);
        lemma_insert_opt_agrees(n14, "all_slaves_active"@, opt_flag(b.all_slaves_active), "ad_select"@);
    }
    assert(agrees_on(n15, n6, "ad_user_port_key"@)) by {
        lemma_insert_opt_agrees(n6, "ad_actor_sys_prio"@, opt_decimal(b.ad_actor_sys_prio), "ad_user_port_key"@);
        lemma_insert_opt_agrees(n7, "ad_actor_system"@, match b.ad_actor_system { Some(x) => Some(x@), None => None }, "ad_user_port_key"@);
        lemma_insert_opt_agrees(n8, "min_links"@, opt_decimal(b.min_links), "ad_user_port_key"@);
        lemma_insert_opt_agrees(n9, "primary_reselect"@, match b.primary_reselect { Some(x) => Some(x.spec_name()), None => None }, "ad_user_port_key"@);
        lemma_insert_opt_agrees(n10, "num_grat_arp"@, opt_decimal(b.num_grat_arp), "ad_user_port_key"@);
        lemma_insert_opt_agrees(n11, "num_usol_na"@, opt_decimal(b.num_usol_na), "ad_user_port_key"@);
        lemma_insert_opt_agrees(n12, "lp_interval"@, opt_decimal(b.lp_interval), "ad_user_port_key"@);
        lemma_insert_opt_agrees(n13, "resend_igmp"@, opt_decimal(b.resend_igmp), "ad_user_port_key"@);
        lemma_insert_opt_agrees(n14, "all_slaves_active"@, opt_flag(b.all_slaves_active), "ad_user_port_key"@);
    }
    assert(agrees_on(n15, n7, "ad_actor_sys_prio"@)) by {
        lemma_insert_opt_agrees(n7, "ad_actor_system"@, match b.ad_actor_system { Some(x) => Some(x@), None => None }, "ad_actor_sys_prio"@);
        lemma_insert_opt_agrees(n8, "min_links"@, opt_decimal(b.min_links), "ad_actor_sys_prio"@);
        lemma_insert_opt_agrees(n9, "primary_reselect"@, match b.primary_reselect { Some(x) => Some(x.spec_name()), None => None }, "ad_actor_sys_prio"@);
        lemma_insert_opt_agrees(n10, "num_grat_arp"@, opt_decimal(b.num_grat_arp), "ad_actor_sys_prio"@);
        lemma_insert_opt_agrees(n11, "num_usol_na"@, opt_decimal(b.num_usol_na), "ad_actor_sys_prio"@);
        lemma_insert_opt_agrees(n12, "lp_interval"@, opt_decimal(b.lp_interval), "ad_actor_sys_prio"@);
        lemma_insert_opt_agrees(n13, "resend_igmp"@, opt_decimal(b.resend_igmp), "ad_actor_sys_prio"@);
        lemma_insert_opt_agrees(n14, "all_slaves_active"@, opt_flag(b.all_slaves_active), "ad_actor_sys_prio"@);
    }
}

/// Every bond's options hold, each under its NetworkManager name, each set tunable among the actor system, the minimum of links, the
/// primary reselection, gratuitous ARPs, unsolicited NAs, the load
/// balancing interval, IGMP resends and all-slaves-active: numbers in decimal, flags as `1`
/// or `0`, enumerations by name, and nothing when unset.
#[verifier::rlimit(100)]
#[verifier::spinoff_prover]
pub proof fn lemma_bond_options_more_tunables(b: Bond)
    ensures
        bond_options(b).get("ad_actor_system"@) == named(b.ad_actor_system, |x: String| x@),
        bond_options(b).get("min_links"@) == opt_decimal(b.min_links),
        bond_options(b).get("primary_reselect"@) == named(
            b.primary_reselect,
            |x: PrimaryReselect| x.spec_name(),
        ),
        bond_options(b).get("num_grat_arp"@) == opt_decimal(b.num_grat_arp),
        bond_options(b).get("num_usol_na"@) == opt_decimal(b.num_usol_na),
        bond_options(b).get("lp_interval"@) == opt_decimal(b.lp_interval),
        bond_options(b).get("resend_igmp"@) == opt_decimal(b.resend_igmp),
        bond_options(b).get("all_slaves_active"@) == named(
            b.all_slaves_active,
            |x: bool| if x { "1"@ } else { "0"@ },
        ),
{
    lemma_option_key_lengths();
}

proof fn lemma_bond_options_agree_with_start(b: Bond, key: Seq<char>)
    requires
        key != "miimon"@,
        key != "carrier_detect"@,
        key != "downdelay"@,
        key != "updelay"@,
        key != "arp_interval"@,
        key != "arp_validate"@,
        key != "arp_ip_target"@,
        key != "arp_all_targets"@,
        key != "fail_over_mac"@,
        key != "xmit_hash_policy"@,
        key != "packets_per_slave"@,
        key != "tlb_dynamic_lb"@,
        key != "lacp_rate"@,
        key != "ad_select"@,
        key != "ad_user_port_key"@,
        key != "ad_actor_sys_prio"@,
        key != "ad_actor_system"@,
        key != "min_links"@,
        key != "primary_reselect"@,
        key != "num_grat_arp"@,
        key != "num_usol_na"@,
        key != "lp_interval"@,
        key != "resend_igmp"@,
        key != "all_slaves_active"@,
    ensures
        agrees_on(
            bond_options(b),
            insert_opt(
                Map::empty().insert("mode"@, b.mode.spec_name()),
                "primary"@,
                primary_device(b.slaves@),
            ),
            key,
        ),
{
    let m0 = insert_opt(
        Map::empty().insert("mode"@, b.mode.spec_name()),
        "primary"@,
        primary_device(b.slaves@),
    );
    let m1 = arpmon_options(miimon_options(m0, b.miimon), b.arpmon);
    lemma_monitor_options_agree(m0, b.miimon, b.arpmon, key);
    let n0 = insert_opt(m1, "fail_over_mac"@, match b.fail_over_mac { Some(f) => Some(f.spec_name()), None => None });
    lemma_insert_opt_agrees(m1, "fail_over_mac"@, match b.fail_over_mac { Some(f) => Some(f.spec_name()), None => None }, key);
    let n1 = insert_opt(n0, "xmit_hash_policy"@, match b.xmit_hash_policy { Some(x) => Some(x.spec_name()), None => None });
    lemma_insert_opt_agrees(n0, "xmit_hash_policy"@, match b.xmit_hash_policy { Some(x) => Some(x.spec_name()), None => None }, key);
    let n2 = insert_opt(n1, "packets_per_slave"@, opt_decimal(b.packets_per_slave));
    lemma_insert_opt_agrees(n1, "packets_per_slave"@, opt_decimal(b.packets_per_slave), key);
    let n3 = insert_opt(n2, "tlb_dynamic_lb"@, opt_flag(b.tlb_dynamic_lb));
    lemma_insert_opt_agrees(n2, "tlb_dynamic_lb"@, opt_flag(b.tlb_dynamic_lb), key);
    let n4 = insert_opt(n3, "lacp_rate"@, match b.lacp_rate { Some(x) => Some(x.spec_name()), None => None });
    lemma_insert_opt_agrees(n3, "lacp_rate"@, match b.lacp_rate { Some(x) => Some(x.spec_name()), None => None }, key);
    let n5 = insert_opt(n4, "ad_select"@, match b.ad_select { Some(x) => Some(x.spec_name()), None => None });
    lemma_insert_opt_agrees(n4, "ad_select"@, match b.ad_select { Some(x) => Some(x.spec_name()), None => None }, key);
    let n6 = insert_opt(n5, "ad_user_port_key"@, opt_decimal(b.ad_user_port_key));
    lemma_insert_opt_agrees(n5, "ad_user_port_key"@, opt_decimal(b.ad_user_port_key), key);
    let n7 = insert_opt(n6, "ad_actor_sys_prio"@, opt_decimal(b.ad_actor_sys_prio));
    lemma_insert_opt_agrees(n6, "ad_actor_sys_prio"@, opt_decimal(b.ad_actor_sys_prio), key);
    let n8 = insert_opt(n7, "ad_actor_system"@, match b.ad_actor_system { Some(x) => Some(x@), None => None });
    lemma_insert_opt_agrees(n7, "ad_actor_system"@, match b.ad_actor_system { Some(x) => Some(x@), None => None }, key);
    let n9 = insert_opt(n8, "min_links"@, opt_decimal(b.min_links));
    lemma_insert_opt_agrees(n8, "min_links"@, opt_decimal(b.min_links), key);
    let n10 = insert_opt(n9, "primary_reselect"@, match b.primary_reselect { Some(x) => Some(x.spec_name()), None => None });
    lemma_insert_opt_agrees(n9, "primary_reselect"@, match b.primary_reselect { Some(x) => Some(x.spec_name()), None => None }, key);
    let n11 = insert_opt(n10, "num_grat_arp"@, opt_decimal(b.num_grat_arp));
    lemma_insert_opt_agrees(n10, "num_grat_arp"@, opt_decimal(b.num_grat_arp), key);
    let n12 = insert_opt(n11, "num_usol_na"@, opt_decimal(b.num_usol_na));
    lemma_insert_opt_agrees(n11, "num_usol_na"@, opt_decimal(b.num_usol_na), key);
    let n13 = insert_opt(n12, "lp_interval"@, opt_decimal(b.lp_interval));
    lemma_insert_opt_agrees(n12, "lp_interval"@, opt_decimal(b.lp_interval), key);
    let n14 = insert_opt(n13, "resend_igmp"@, opt_decimal(b.resend_igmp));
    lemma_insert_opt_agrees(n13, "resend_igmp"@, opt_decimal(b.resend_igmp), key);
    let n15 = insert_opt(n14, "all_slaves_active"@, opt_flag(b.all_slaves_active));
    lemma_insert_opt_agrees(n14, "all_slaves_active"@, opt_flag(b.all_slaves_active), key);
    assert(bond_options(b) == n15);
}

} // verus!
