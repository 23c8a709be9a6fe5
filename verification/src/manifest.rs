//! Component manifests: the `:aiueos/...` EDN that says what a component is,
//! what it may touch (capabilities and effects) and how much it may consume
//! (limits). Parsing is strict: a malformed field is an error, never a
//! silent default.

use crate::edn::{
    all_keywords, elements, keyword_texts, kw_collection, lookup, lookup_in,
    sorted_texts, texts, Edn,
};
use crate::error::AiueError;
use crate::text::{has_prefix, str_eq};
use crate::topic::TopicId;
use vstd::prelude::*;
use vstd::string::*;

verus! {

/// The kind of a component.
#[derive(Debug, Clone, Copy, PartialEq, Eq, Structural, PartialOrd, Ord, Hash)]
pub enum Kind {
    App,
    Service,
    Driver,
    Broker,
    Agent,
    KernelExtension,
    Compat,
}

/// The text of each kind.
pub open spec fn kind_text(k: Kind) -> Seq<char> {
    match k {
        Kind::App => "app"@,
        Kind::Service => "service"@,
        Kind::Driver => "driver"@,
        Kind::Broker => "broker"@,
        Kind::Agent => "agent"@,
        Kind::KernelExtension => "kernel-extension"@,
        Kind::Compat => "compat"@,
    }
}

/// The kind a text names, if any.
pub open spec fn kind_from_text(s: Seq<char>) -> Option<Kind> {
    if s == "app"@ {
        Some(Kind::App)
    } else if s == "service"@ {
        Some(Kind::Service)
    } else if s == "driver"@ {
        Some(Kind::Driver)
    } else if s == "broker"@ {
        Some(Kind::Broker)
    } else if s == "agent"@ {
        Some(Kind::Agent)
    } else if s == "kernel-extension"@ {
        Some(Kind::KernelExtension)
    } else if s == "compat"@ {
        Some(Kind::Compat)
    } else {
        None
    }
}

impl Kind {
    /// The kind a keyword text names, such as `driver`; `None` for any other text.
    pub fn parse(s: &str) -> (r: Option<Kind>)
        ensures
            r == kind_from_text(s@),
    {
        if str_eq(s, "app") {
            Some(Kind::App)
        } else if str_eq(s, "service") {
            Some(Kind::Service)
        } else if str_eq(s, "driver") {
            Some(Kind::Driver)
        } else if str_eq(s, "broker") {
            Some(Kind::Broker)
        } else if str_eq(s, "agent") {
            Some(Kind::Agent)
        } else if str_eq(s, "kernel-extension") {
            Some(Kind::KernelExtension)
        } else if str_eq(s, "compat") {
            Some(Kind::Compat)
        } else {
            None
        }
    }

    /// The text that names this kind.
    pub fn label(self) -> (r: &'static str)
        ensures
            r@ == kind_text(self),
    {
        match self {
            Kind::App => "app",
            Kind::Service => "service",
            Kind::Driver => "driver",
            Kind::Broker => "broker",
            Kind::Agent => "agent",
            Kind::KernelExtension => "kernel-extension",
            Kind::Compat => "compat",
        }
    }
}

/// Every kind's label parses back to that kind.
pub proof fn law_kind_label_round_trip(k: Kind)
    ensures
        kind_from_text(kind_text(k)) == Some(k),
{
    reveal_strlit("app");
    reveal_strlit("service");
    reveal_strlit("driver");
    reveal_strlit("broker");
    reveal_strlit("agent");
    reveal_strlit("kernel-extension");
    reveal_strlit("compat");
    assert("app"@.len() == 3 && "service"@.len() == 7 && "driver"@.len() == 6);
    assert("broker"@.len() == 6 && "agent"@.len() == 5 && "kernel-extension"@.len() == 16);
    assert("compat"@.len() == 6);
    assert("driver"@[0] == 'd' && "broker"@[0] == 'b' && "compat"@[0] == 'c');
}

/// A text parses to a kind only when it is that kind's label.
pub proof fn law_kind_parse_is_label(s: Seq<char>, k: Kind)
    requires
        kind_from_text(s) == Some(k),
    ensures
        kind_text(k) == s,
{
    law_kind_label_round_trip(k);
}

/// The texts of the kinds are `app`, `service`, `driver`, `broker`, `agent`,
/// `kernel-extension` and `compat`, and each of these texts parses to its own
/// kind.
pub proof fn law_kind_texts()
    ensures
        kind_text(Kind::App) == "app"@,
        kind_text(Kind::Service) == "service"@,
        kind_text(Kind::Driver) == "driver"@,
        kind_text(Kind::Broker) == "broker"@,
        kind_text(Kind::Agent) == "agent"@,
        kind_text(Kind::KernelExtension) == "kernel-extension"@,
        kind_text(Kind::Compat) == "compat"@,
        kind_from_text("app"@) == Some(Kind::App),
        kind_from_text("service"@) == Some(Kind::Service),
        kind_from_text("driver"@) == Some(Kind::Driver),
        kind_from_text("broker"@) == Some(Kind::Broker),
        kind_from_text("agent"@) == Some(Kind::Agent),
        kind_from_text("kernel-extension"@) == Some(Kind::KernelExtension),
        kind_from_text("compat"@) == Some(Kind::Compat),
{
    law_kind_label_round_trip(Kind::App);
    law_kind_label_round_trip(Kind::Service);
    law_kind_label_round_trip(Kind::Driver);
    law_kind_label_round_trip(Kind::Broker);
    law_kind_label_round_trip(Kind::Agent);
    law_kind_label_round_trip(Kind::KernelExtension);
    law_kind_label_round_trip(Kind::Compat);
}

/// Trust level: how the component arrived and how much it is believed.
#[derive(Debug, Clone, Copy, PartialEq, Eq, Structural, PartialOrd, Ord, Hash)]
pub enum Trust {
    /// Part of the trusted computing base.
    Trusted,
    /// Carries a verification proof or a signed manifest.
    Verified,
    /// A plain third-party component.
    Untrusted,
    /// Emitted by an AI agent at run time.
    AiGenerated,
}

/// The text of each trust level.
pub open spec fn trust_text(t: Trust) -> Seq<char> {
    match t {
        Trust::Trusted => "trusted"@,
        Trust::Verified => "verified"@,
        Trust::Untrusted => "untrusted"@,
        Trust::AiGenerated => "ai-generated"@,
    }
}

/// The trust level a text names, if any.
pub open spec fn trust_from_text(s: Seq<char>) -> Option<Trust> {
    if s == "trusted"@ {
        Some(Trust::Trusted)
    } else if s == "verified"@ {
        Some(Trust::Verified)
    } else if s == "untrusted"@ {
        Some(Trust::Untrusted)
    } else if s == "ai-generated"@ {
        Some(Trust::AiGenerated)
    } else {
        None
    }
}

impl Trust {
    /// The trust level a keyword text names, such as `ai-generated`; `None`
    /// for any other text.
    pub fn parse(s: &str) -> (r: Option<Trust>)
        ensures
            r == trust_from_text(s@),
    {
        if str_eq(s, "trusted") {
            Some(Trust::Trusted)
        } else if str_eq(s, "verified") {
            Some(Trust::Verified)
        } else if str_eq(s, "untrusted") {
            Some(Trust::Untrusted)
        } else if str_eq(s, "ai-generated") {
            Some(Trust::AiGenerated)
        } else {
            None
        }
    }

    /// The text that names this trust level.
    pub fn label(self) -> (r: &'static str)
        ensures
            r@ == trust_text(self),
    {
        match self {
            Trust::Trusted => "trusted",
            Trust::Verified => "verified",
            Trust::Untrusted => "untrusted",
            Trust::AiGenerated => "ai-generated",
        }
    }
}

/// Every trust level's label parses back to that level.
pub proof fn law_trust_label_round_trip(t: Trust)
    ensures
        trust_from_text(trust_text(t)) == Some(t),
{
    reveal_strlit("trusted");
    reveal_strlit("verified");
    reveal_strlit("untrusted");
    reveal_strlit("ai-generated");
    assert("trusted"@.len() == 7 && "verified"@.len() == 8 && "untrusted"@.len() == 9);
    assert("ai-generated"@.len() == 12);
}

/// A text parses to a trust level only when it is that level's label.
pub proof fn law_trust_parse_is_label(s: Seq<char>, t: Trust)
    requires
        trust_from_text(s) == Some(t),
    ensures
        trust_text(t) == s,
{
    law_trust_label_round_trip(t);
}

/// The texts of the trust levels are `trusted`, `verified`, `untrusted` and
/// `ai-generated`, and each of these texts parses to its own level.
pub proof fn law_trust_texts()
    ensures
        trust_text(Trust::Trusted) == "trusted"@,
        trust_text(Trust::Verified) == "verified"@,
        trust_text(Trust::Untrusted) == "untrusted"@,
        trust_text(Trust::AiGenerated) == "ai-generated"@,
        trust_from_text("trusted"@) == Some(Trust::Trusted),
        trust_from_text("verified"@) == Some(Trust::Verified),
        trust_from_text("untrusted"@) == Some(Trust::Untrusted),
        trust_from_text("ai-generated"@) == Some(Trust::AiGenerated),
{
    law_trust_label_round_trip(Trust::Trusted);
    law_trust_label_round_trip(Trust::Verified);
    law_trust_label_round_trip(Trust::Untrusted);
    law_trust_label_round_trip(Trust::AiGenerated);
}

/// The trust a component gets when its manifest states none: agents are
/// AI-generated, kernel extensions trusted, everything else untrusted.
pub open spec fn default_trust(k: Kind) -> Trust {
    match k {
        Kind::Agent => Trust::AiGenerated,
        Kind::KernelExtension => Trust::Trusted,
        _ => Trust::Untrusted,
    }
}

/// Resource limits enforced at run time.
#[derive(Debug, Clone, Copy, PartialEq, Eq, Structural)]
pub struct Limits {
    /// Maximum linear-memory pages (64 KiB each).
    pub memory_pages: u32,
    /// Fuel budget: one unit per executed instruction.
    pub fuel: u64,
}

/// The default limits, deliberately small.
pub open spec fn default_limits() -> Limits {
    Limits { memory_pages: 16, fuel: 10_000_000 }
}

impl Default for Limits {
    fn default() -> (r: Self)
        ensures
            r == default_limits(),
    {
        Limits { memory_pages: 16, fuel: 10_000_000 }
    }
}

#[derive(Debug, Clone)]
pub struct Manifest {
    /// Canonical id, e.g. `driver/virtio-blk`.
    pub id: String,
    pub kind: Kind,
    pub trust: Trust,
    /// Path to CLJ/Kotoba source, relative to the manifest.
    pub source: Option<String>,
    /// Path to a precompiled wasm or WAT artifact.
    pub wasm: Option<String>,
    /// Hex SHA-256 that the artifact must match.
    pub wasm_sha256: Option<String>,
    /// The signer that vouches for this manifest.
    pub signer: Option<String>,
    /// Hex ed25519 signature over the canonical signed message.
    pub signature: Option<String>,
    /// Capabilities needed from others or from the kernel, sorted, no repeats.
    pub imports: Vec<String>,
    /// Capabilities provided to others, sorted, no repeats.
    pub exports: Vec<String>,
    /// Side effects performed, sorted, no repeats.
    pub effects: Vec<String>,
    /// Hardware or runtime requirements, sorted, no repeats.
    pub requires: Vec<String>,
    /// Topic ids the component may publish to.
    pub publishes: Vec<TopicId>,
    /// Topic ids the component may read.
    pub subscribes: Vec<TopicId>,
    pub limits: Limits,
    /// Exported wasm function the runtime calls.
    pub entry: String,
    /// Arguments passed to `entry`.
    pub args: Vec<i64>,
}

/// The keys of the `aiueos` namespace that a manifest may hold.
pub open spec fn known_key(t: Seq<char>) -> bool {
    ||| t == "aiueos/component"@
    ||| t == "aiueos/kind"@
    ||| t == "aiueos/trust"@
    ||| t == "aiueos/source"@
    ||| t == "aiueos/wasm"@
    ||| t == "aiueos/wasm-sha256"@
    ||| t == "aiueos/signer"@
    ||| t == "aiueos/signature"@
    ||| t == "aiueos/imports"@
    ||| t == "aiueos/exports"@
    ||| t == "aiueos/effects"@
    ||| t == "aiueos/requires"@
    ||| t == "aiueos/publishes"@
    ||| t == "aiueos/subscribes"@
    ||| t == "aiueos/limits"@
    ||| t == "aiueos/entry"@
    ||| t == "aiueos/args"@
}

/// A key of the `aiueos` namespace that no manifest field reads.
pub open spec fn unknown_own_key(t: Seq<char>) -> bool {
    "aiueos/"@.is_prefix_of(t) && !known_key(t)
}

/// The text of the first unknown `aiueos` key among the entries.
pub open spec fn first_unknown_key(es: Seq<(Edn, Edn)>) -> Option<Seq<char>>
    decreases es.len(),
{
    if es.len() == 0 {
        None
    } else if es[0].0 matches Edn::Keyword(k) && unknown_own_key(k@) {
        Some(es[0].0->Keyword_0@)
    } else {
        first_unknown_key(es.drop_first())
    }
}

/// The text of the keyword stored under `key`, if the value there is a keyword.
pub open spec fn keyword_at(es: Seq<(Edn, Edn)>, key: Seq<char>) -> Option<Seq<char>> {
    match lookup(es, key) {
        Some(Edn::Keyword(k)) => Some(k@),
        _ => None,
    }
}

/// The character view of an optional string.
pub open spec fn opt_view(o: Option<String>) -> Option<Seq<char>> {
    match o {
        Some(s) => Some(s@),
        None => None,
    }
}

/// An optional string field: `Some(None)` when absent, `None` when malformed.
pub open spec fn string_field(es: Seq<(Edn, Edn)>, key: Seq<char>) -> Option<Option<Seq<char>>> {
    match lookup(es, key) {
        None => Some(None),
        Some(Edn::Str(s)) => Some(Some(s@)),
        Some(_) => None,
    }
}

/// The entry function: `main` when absent; a non-empty string otherwise.
pub open spec fn entry_field(es: Seq<(Edn, Edn)>) -> Option<Seq<char>> {
    match lookup(es, "aiueos/entry"@) {
        None => Some("main"@),
        Some(Edn::Str(s)) => if s@.len() > 0 { Some(s@) } else { None },
        Some(_) => None,
    }
}

/// The memory-page limit: the default when absent, an integer that fits in
/// `u32` otherwise.
pub open spec fn pages_field(ls: Seq<(Edn, Edn)>) -> Option<u32> {
    match lookup(ls, "memory-pages"@) {
        None => Some(default_limits().memory_pages),
        Some(Edn::Integer(n)) => if 0 <= n <= u32::MAX { Some(n as u32) } else { None },
        Some(_) => None,
    }
}

/// The fuel limit: the default when absent, a non-negative integer otherwise.
pub open spec fn fuel_field(ls: Seq<(Edn, Edn)>) -> Option<u64> {
    match lookup(ls, "fuel"@) {
        None => Some(default_limits().fuel),
        Some(Edn::Integer(n)) => if 0 <= n { Some(n as u64) } else { None },
        Some(_) => None,
    }
}

/// The limits: defaults when absent; a map whose missing keys keep their defaults.
pub open spec fn limits_field(es: Seq<(Edn, Edn)>) -> Option<Limits> {
    match lookup(es, "aiueos/limits"@) {
        None => Some(default_limits()),
        Some(Edn::MapOf(ls)) => match (pages_field(ls@), fuel_field(ls@)) {
            (Some(p), Some(f)) => Some(Limits { memory_pages: p, fuel: f }),
            _ => None,
        },
        Some(_) => None,
    }
}

/// The integer an EDN integer holds.
pub open spec fn integer_of(e: Edn) -> i64 {
    match e {
        Edn::Integer(n) => n,
        _ => 0,
    }
}

/// Every one of `items` is an integer.
pub open spec fn all_integers(items: Seq<Edn>) -> bool {
    forall|i: int| 0 <= i < items.len() ==> #[trigger] items[i] is Integer
}

/// The entry arguments: none when absent; a vector or list of integers otherwise.
pub open spec fn args_field(es: Seq<(Edn, Edn)>) -> Option<Seq<i64>> {
    match lookup(es, "aiueos/args"@) {
        None => Some(seq![]),
        Some(Edn::Vector(xs)) => if all_integers(xs@) { Some(xs@.map_values(|e: Edn| integer_of(e))) } else { None },
        Some(Edn::List(xs)) => if all_integers(xs@) { Some(xs@.map_values(|e: Edn| integer_of(e))) } else { None },
        Some(_) => None,
    }
}

/// A keyword collection: empty when absent; a vector, list or set of
/// keywords otherwise.
pub open spec fn keywords_field(es: Seq<(Edn, Edn)>, key: Seq<char>) -> Option<Set<Seq<char>>> {
    match lookup(es, key) {
        None => Some(Set::empty()),
        Some(x) => match elements(x) {
            Some(items) => if all_keywords(items) { Some(keyword_texts(items)) } else { None },
            None => None,
        },
    }
}

/// Every one of `items` is an integer that fits in a topic id.
pub open spec fn all_topic_ids(items: Seq<Edn>) -> bool {
    forall|i: int| 0 <= i < items.len() ==> (#[trigger] items[i] matches Edn::Integer(n) && i32::MIN <= n <= i32::MAX)
}

/// A topic-id collection: empty when absent; a vector, list or set of
/// integers that fit in `i32` otherwise, in the order written.
pub open spec fn topics_field(es: Seq<(Edn, Edn)>, key: Seq<char>) -> Option<Seq<TopicId>> {
    match lookup(es, key) {
        None => Some(seq![]),
        Some(x) => match elements(x) {
            Some(items) => if all_topic_ids(items) {
                Some(items.map_values(|e: Edn| integer_of(e) as i32))
            } else {
                None
            },
            None => None,
        },
    }
}

/// The trust a manifest states, or the default of its kind.
pub open spec fn trust_value(es: Seq<(Edn, Edn)>, k: Kind) -> Trust {
    match lookup(es, "aiueos/trust"@) {
        Some(Edn::Keyword(t)) => trust_from_text(t@).unwrap(),
        _ => default_trust(k),
    }
}

/// The message for a field of the wrong shape.
pub open spec fn malformed(id: Seq<char>, field: Seq<char>) -> Seq<char> {
    id + ": malformed :aiueos/"@ + field
}

/// The first error among the fields checked after kind and trust, in this
/// order: unknown keys, limits, args, entry, the string fields, the keyword
/// collections, the topic collections.
pub open spec fn later_error(es: Seq<(Edn, Edn)>, id: Seq<char>) -> Option<Seq<char>> {
    if first_unknown_key(es) is Some {
        Some(id + ": unknown key :"@ + first_unknown_key(es).unwrap())
    } else if limits_field(es) is None {
        Some(malformed(id, "limits"@))
    } else if args_field(es) is None {
        Some(malformed(id, "args"@))
    } else if entry_field(es) is None {
        Some(malformed(id, "entry"@))
    } else if string_field(es, "aiueos/source"@) is None {
        Some(malformed(id, "source"@))
    } else if string_field(es, "aiueos/wasm"@) is None {
        Some(malformed(id, "wasm"@))
    } else if string_field(es, "aiueos/wasm-sha256"@) is None {
        Some(malformed(id, "wasm-sha256"@))
    } else if string_field(es, "aiueos/signer"@) is None {
        Some(malformed(id, "signer"@))
    } else if string_field(es, "aiueos/signature"@) is None {
        Some(malformed(id, "signature"@))
    } else if keywords_field(es, "aiueos/imports"@) is None {
        Some(malformed(id, "imports"@))
    } else if keywords_field(es, "aiueos/exports"@) is None {
        Some(malformed(id, "exports"@))
    } else if keywords_field(es, "aiueos/effects"@) is None {
        Some(malformed(id, "effects"@))
    } else if keywords_field(es, "aiueos/requires"@) is None {
        Some(malformed(id, "requires"@))
    } else if topics_field(es, "aiueos/publishes"@) is None {
        Some(malformed(id, "publishes"@))
    } else if topics_field(es, "aiueos/subscribes"@) is None {
        Some(malformed(id, "subscribes"@))
    } else {
        None
    }
}

/// The first error of a manifest map once its id is known.
pub open spec fn error_after_id(es: Seq<(Edn, Edn)>, id: Seq<char>) -> Option<Seq<char>> {
    match lookup(es, "aiueos/kind"@) {
        Some(Edn::Keyword(k)) => if kind_from_text(k@) is None {
            Some(id + ": unknown :aiueos/kind "@ + k@)
        } else {
            match lookup(es, "aiueos/trust"@) {
                None => later_error(es, id),
                Some(Edn::Keyword(t)) => if trust_from_text(t@) is None {
                    Some(id + ": unknown :aiueos/trust "@ + t@)
                } else {
                    later_error(es, id)
                },
                Some(_) => Some(malformed(id, "trust"@)),
            }
        },
        _ => Some(id + ": missing :aiueos/kind"@),
    }
}

/// The schema error of an EDN value as a manifest, or `None` when it is a
/// valid manifest.
pub open spec fn manifest_error(v: Edn) -> Option<Seq<char>> {
    match v {
        Edn::MapOf(es) => match lookup(es@, "aiueos/component"@) {
            Some(Edn::Keyword(id)) => error_after_id(es@, id@),
            _ => Some("manifest missing :aiueos/component"@),
        },
        _ => Some("manifest must be a map"@),
    }
}

/// Parsing is strict: a manifest that parses holds no unknown `aiueos` key,
/// and each field it holds has the shape that field takes (limits in range,
/// integer arguments, a non-empty entry, keyword capabilities).
pub proof fn law_valid_manifest_is_well_shaped(v: Edn)
    requires
        manifest_error(v) is None,
    ensures
        v is MapOf,
        first_unknown_key(v->MapOf_0@) is None,
        limits_field(v->MapOf_0@) is Some,
        args_field(v->MapOf_0@) is Some,
        entry_field(v->MapOf_0@) matches Some(e) && e.len() > 0,
        keywords_field(v->MapOf_0@, "aiueos/imports"@) is Some,
        keywords_field(v->MapOf_0@, "aiueos/effects"@) is Some,
{
    reveal_strlit("main");
}

/// Limits default to 16 memory pages and 10,000,000 units of fuel: a manifest
/// without `:aiueos/limits` gets both, a limits map without `memory-pages`
/// keeps 16 pages, one without `fuel` keeps 10,000,000, and a key that is
/// present with an integer in range gives that integer.
pub proof fn law_limits_defaults(es: Seq<(Edn, Edn)>, ls: Seq<(Edn, Edn)>)
    ensures
        lookup(es, "aiueos/limits"@) is None ==> limits_field(es) == Some(
            Limits { memory_pages: 16, fuel: 10_000_000 },
        ),
        lookup(ls, "memory-pages"@) is None ==> pages_field(ls) == Some(16u32),
        lookup(ls, "fuel"@) is None ==> fuel_field(ls) == Some(10_000_000u64),
        forall|n: i64| lookup(ls, "memory-pages"@) == Some(Edn::Integer(n)) && 0 <= n <= u32::MAX
            ==> pages_field(ls) == Some(n as u32),
        forall|n: i64| lookup(ls, "fuel"@) == Some(Edn::Integer(n)) && 0 <= n
            ==> fuel_field(ls) == Some(n as u64),
{
}

/// Without a stated trust, agents are AI-generated, kernel extensions
/// trusted, and every other kind untrusted; a stated trust level wins.
pub proof fn law_trust_defaults(es: Seq<(Edn, Edn)>, k: Kind)
    ensures
        lookup(es, "aiueos/trust"@) is None ==> trust_value(es, k) == (if k == Kind::Agent {
            Trust::AiGenerated
        } else if k == Kind::KernelExtension {
            Trust::Trusted
        } else {
            Trust::Untrusted
        }),
        forall|t: String| lookup(es, "aiueos/trust"@) == Some(Edn::Keyword(t)) && t@ == "verified"@
            ==> trust_value(es, k) == Trust::Verified,
{
    law_trust_texts();
}

/// The entry defaults to `main`; a stated non-empty entry is kept as written.
/// The arguments are the integers written, in order; none when absent.
pub proof fn law_entry_and_args(es: Seq<(Edn, Edn)>)
    ensures
        lookup(es, "aiueos/entry"@) is None ==> entry_field(es) == Some("main"@),
        forall|s: String| lookup(es, "aiueos/entry"@) == Some(Edn::Str(s)) && s@.len() > 0
            ==> entry_field(es) == Some(s@),
        lookup(es, "aiueos/args"@) is None ==> args_field(es) == Some(Seq::<i64>::empty()),
        args_field(es) matches Some(a) ==> lookup(es, "aiueos/args"@) is None || (
            lookup(es, "aiueos/args"@) matches Some(x) && elements(x) matches Some(xs) && xs.len()
                == a.len() && forall|i: int| 0 <= i < a.len() ==> xs[i] == Edn::Integer(#[trigger] a[i])),
{
    if args_field(es) is Some && lookup(es, "aiueos/args"@) is Some {
        let x = lookup(es, "aiueos/args"@).unwrap();
        let xs = elements(x).unwrap();
        assert forall|i: int| 0 <= i < xs.len() implies xs[i] == Edn::Integer(#[trigger] args_field(es).unwrap()[i]) by {
            assert(xs[i] is Integer);
        }
    }
}

/// A string field holds the text written, or nothing when absent; topic ids
/// are the integers written, in order.
pub proof fn law_string_and_topic_fields(es: Seq<(Edn, Edn)>, key: Seq<char>)
    ensures
        lookup(es, key) is None ==> string_field(es, key) == Some(None::<Seq<char>>),
        forall|s: String| lookup(es, key) == Some(Edn::Str(s)) ==> string_field(es, key) == Some(Some(s@)),
        topics_field(es, key) matches Some(ts) ==> lookup(es, key) is None && ts.len() == 0 || (
            lookup(es, key) matches Some(x) && elements(x) matches Some(xs) && xs.len() == ts.len()
                && forall|i: int| 0 <= i < ts.len() ==> xs[i] == Edn::Integer(#[trigger] ts[i] as i64)),
{
    if topics_field(es, key) is Some && lookup(es, key) is Some {
        let x = lookup(es, key).unwrap();
        let xs = elements(x).unwrap();
        assert forall|i: int| 0 <= i < xs.len() implies xs[i] == Edn::Integer(#[trigger] topics_field(es, key).unwrap()[i] as i64) by {
            assert(xs[i] matches Edn::Integer(n) && i32::MIN <= n <= i32::MAX);
        }
    }
}

/// A parsed manifest whose limits map leaves out a key has that key's
/// default: 16 memory pages, or 10,000,000 units of fuel.
pub proof fn law_parsed_limits_keep_defaults(m: Manifest, v: Edn, ls: Vec<(Edn, Edn)>)
    requires
        manifest_matches(m, v),
        v is MapOf,
        lookup(v->MapOf_0@, "aiueos/limits"@) == Some(Edn::MapOf(ls)),
    ensures
        lookup(ls@, "memory-pages"@) is None ==> m.limits.memory_pages == 16,
        lookup(ls@, "fuel"@) is None ==> m.limits.fuel == 10_000_000,
{
    law_limits_defaults(v->MapOf_0@, ls@);
}

/// A capability collection holds exactly the keywords written, whether as a
/// vector, a list or a set: a text is in it exactly when some element is the
/// keyword with that text.
pub proof fn law_keywords_field_holds_written_keywords(es: Seq<(Edn, Edn)>, key: Seq<char>, x: Edn, items: Seq<Edn>)
    requires
        lookup(es, key) == Some(x),
        elements(x) == Some(items),
        all_keywords(items),
    ensures
        keywords_field(es, key) is Some,
        forall|t: Seq<char>| keywords_field(es, key).unwrap().contains(t) <==> exists|i: int|
            0 <= i < items.len() && #[trigger] crate::edn::is_keyword_text(items[i], t),
{
}

/// The capabilities of a parsed manifest are exactly the keywords written
/// under `:aiueos/imports`, in any collection form, sorted and without repeats.
pub proof fn law_parsed_imports_are_written_keywords(m: Manifest, v: Edn, x: Edn, items: Seq<Edn>)
    requires
        manifest_matches(m, v),
        v is MapOf,
        lookup(v->MapOf_0@, "aiueos/imports"@) == Some(x),
        elements(x) == Some(items),
    ensures
        sorted_texts(texts(m.imports@)),
        forall|t: Seq<char>| texts(m.imports@).contains(t) <==> exists|i: int|
            0 <= i < items.len() && #[trigger] crate::edn::is_keyword_text(items[i], t),
{
    law_keywords_field_holds_written_keywords(v->MapOf_0@, "aiueos/imports"@, x, items);
    assert forall|t: Seq<char>| texts(m.imports@).contains(t) <==> texts(m.imports@).to_set().contains(t) by {}
}

/// A keyword-collection field of a manifest holds the collection's keywords,
/// sorted and without repeats.
pub open spec fn keywords_match(field: Seq<String>, es: Seq<(Edn, Edn)>, key: Seq<char>) -> bool {
    sorted_texts(texts(field)) && keywords_field(es, key) == Some(texts(field).to_set())
}

/// `m` holds what the manifest map `v` states.
pub open spec fn manifest_matches(m: Manifest, v: Edn) -> bool {
    match v {
        Edn::MapOf(es) => {
            let es = es@;
            &&& keyword_at(es, "aiueos/component"@) == Some(m.id@)
            &&& keyword_at(es, "aiueos/kind"@) is Some
            &&& kind_from_text(keyword_at(es, "aiueos/kind"@).unwrap()) == Some(m.kind)
            &&& m.trust == trust_value(es, m.kind)
            &&& string_field(es, "aiueos/source"@) == Some(opt_view(m.source))
            &&& string_field(es, "aiueos/wasm"@) == Some(opt_view(m.wasm))
            &&& string_field(es, "aiueos/wasm-sha256"@) == Some(opt_view(m.wasm_sha256))
            &&& string_field(es, "aiueos/signer"@) == Some(opt_view(m.signer))
            &&& string_field(es, "aiueos/signature"@) == Some(opt_view(m.signature))
            &&& keywords_match(m.imports@, es, "aiueos/imports"@)
            &&& keywords_match(m.exports@, es, "aiueos/exports"@)
            &&& keywords_match(m.effects@, es, "aiueos/effects"@)
            &&& keywords_match(m.requires@, es, "aiueos/requires"@)
            &&& topics_field(es, "aiueos/publishes"@) == Some(m.publishes@)
            &&& topics_field(es, "aiueos/subscribes"@) == Some(m.subscribes@)
            &&& limits_field(es) == Some(m.limits)
            &&& entry_field(es) == Some(m.entry@)
            &&& args_field(es) == Some(m.args@)
        },
        _ => false,
    }
}

/// `e` is a schema error with message `msg`.
pub open spec fn is_schema_error(e: AiueError, msg: Seq<char>) -> bool {
    e matches AiueError::Schema(s) && s@ == msg
}

fn known_key_exec(t: &str) -> (r: bool)
    ensures
        r == known_key(t@),
{
    str_eq(t, "aiueos/component") || str_eq(t, "aiueos/kind") || str_eq(t, "aiueos/trust")
        || str_eq(t, "aiueos/source") || str_eq(t, "aiueos/wasm") || str_eq(t, "aiueos/wasm-sha256")
        || str_eq(t, "aiueos/signer") || str_eq(t, "aiueos/signature") || str_eq(t, "aiueos/imports")
        || str_eq(t, "aiueos/exports") || str_eq(t, "aiueos/effects") || str_eq(t, "aiueos/requires")
        || str_eq(t, "aiueos/publishes") || str_eq(t, "aiueos/subscribes")
        || str_eq(t, "aiueos/limits") || str_eq(t, "aiueos/entry") || str_eq(t, "aiueos/args")
}

/// The first unknown `aiueos` key among the entries.
fn first_unknown_key_of(es: &Vec<(Edn, Edn)>) -> (r: Option<&String>)
    ensures
        match r {
            Some(k) => first_unknown_key(es@) == Some(k@),
            None => first_unknown_key(es@) is None,
        },
{
    let n = es.len();
    let mut i: usize = 0;
    assert(es@.skip(0) =~= es@);
    while i < n
        invariant
            n == es@.len(),
            i <= n,
            first_unknown_key(es@) == first_unknown_key(es@.skip(i as int)),
        decreases n - i,
    {
        assert(es@.skip(i as int).drop_first() =~= es@.skip(i + 1));
        if let Edn::Keyword(k) = &es[i].0 {
            if has_prefix(k.as_str(), "aiueos/") && !known_key_exec(k.as_str()) {
                return Some(k);
            }
        }
        i = i + 1;
    }
    None
}

/// An optional string field; `None` when the value is not a string.
fn string_field_of(es: &Vec<(Edn, Edn)>, key: &str) -> (r: Option<Option<String>>)
    ensures
        match r {
            Some(o) => string_field(es@, key@) == Some(opt_view(o)),
            None => string_field(es@, key@) is None,
        },
{
    match lookup_in(es, key) {
        None => Some(None),
        Some(Edn::Str(s)) => Some(Some(s.clone())),
        Some(_) => None,
    }
}

fn entry_of(es: &Vec<(Edn, Edn)>) -> (r: Option<String>)
    ensures
        match r {
            Some(s) => entry_field(es@) == Some(s@),
            None => entry_field(es@) is None,
        },
{
    match lookup_in(es, "aiueos/entry") {
        None => Some(String::from_str("main")),
        Some(Edn::Str(s)) => if s.unicode_len() > 0 { Some(s.clone()) } else { None },
        Some(_) => None,
    }
}

fn limits_of(es: &Vec<(Edn, Edn)>) -> (r: Option<Limits>)
    ensures
        r == limits_field(es@),
{
    match lookup_in(es, "aiueos/limits") {
        None => Some(Limits::default()),
        Some(Edn::MapOf(ls)) => {
            let pages: u32 = match lookup_in(ls, "memory-pages") {
                None => 16,
                Some(Edn::Integer(n)) => if 0 <= *n && *n <= 4294967295 { *n as u32 } else { return None },
                Some(_) => return None,
            };
            let fuel: u64 = match lookup_in(ls, "fuel") {
                None => 10_000_000,
                Some(Edn::Integer(n)) => if 0 <= *n { *n as u64 } else { return None },
                Some(_) => return None,
            };
            Some(Limits { memory_pages: pages, fuel })
        },
        Some(_) => None,
    }
}

/// The integers of `xs`, or `None` when one of them is not an integer.
fn integers_of(xs: &Vec<Edn>) -> (r: Option<Vec<i64>>)
    ensures
        match r {
            Some(a) => all_integers(xs@) && a@ == xs@.map_values(|e: Edn| integer_of(e)),
            None => !all_integers(xs@),
        },
{
    let mut out: Vec<i64> = Vec::new();
    let n = xs.len();
    let mut i: usize = 0;
    while i < n
        invariant
            n == xs@.len(),
            i <= n,
            all_integers(xs@.take(i as int)),
            out@ == xs@.take(i as int).map_values(|e: Edn| integer_of(e)),
        decreases n - i,
    {
        match &xs[i] {
            Edn::Integer(k) => out.push(*k),
            _ => {
                assert(!(xs@[i as int] is Integer));
                return None;
            },
        }
        assert(xs@.take(i + 1) =~= xs@.take(i as int).push(xs@[i as int]));
        assert(out@ =~= xs@.take(i + 1).map_values(|e: Edn| integer_of(e)));
        i = i + 1;
    }
    assert(xs@.take(n as int) =~= xs@);
    Some(out)
}

fn args_of(es: &Vec<(Edn, Edn)>) -> (r: Option<Vec<i64>>)
    ensures
        match r {
            Some(a) => args_field(es@) == Some(a@),
            None => args_field(es@) is None,
        },
{
    match lookup_in(es, "aiueos/args") {
        None => Some(Vec::new()),
        Some(Edn::Vector(xs)) => integers_of(xs),
        Some(Edn::List(xs)) => integers_of(xs),
        Some(_) => None,
    }
}

/// The elements of a vector, list or set.
fn elements_of(x: &Edn) -> (r: Option<&Vec<Edn>>)
    ensures
        match r {
            Some(xs) => elements(*x) == Some(xs@),
            None => elements(*x) is None,
        },
{
    match x {
        Edn::Vector(xs) => Some(xs),
        Edn::List(xs) => Some(xs),
        Edn::SetOf(xs) => Some(xs),
        _ => None,
    }
}

fn keywords_of(es: &Vec<(Edn, Edn)>, key: &str) -> (r: Option<Vec<String>>)
    ensures
        match r {
            Some(v) => keywords_match(v@, es@, key@),
            None => keywords_field(es@, key@) is None,
        },
{
    match lookup_in(es, key) {
        None => {
            let v: Vec<String> = Vec::new();
            assert(texts(v@).to_set() =~= Set::<Seq<char>>::empty());
            Some(v)
        },
        Some(x) => match elements_of(x) {
            None => None,
            Some(xs) => {
                let n = xs.len();
                let mut i: usize = 0;
                while i < n
                    invariant
                        n == xs@.len(),
                        i <= n,
                        forall|j: int| 0 <= j < i ==> #[trigger] xs@[j] is Keyword,
                        lookup(es@, key@) == Some(*x),
                        elements(*x) == Some(xs@),
                    decreases n - i,
                {
                    if !(matches!(xs[i], Edn::Keyword(_))) {
                        assert(!(xs@[i as int] is Keyword));
                        assert(!all_keywords(xs@));
                        return None;
                    }
                    i = i + 1;
                }
                Some(kw_collection(Some(x)))
            },
        },
    }
}

fn topics_of(es: &Vec<(Edn, Edn)>, key: &str) -> (r: Option<Vec<TopicId>>)
    ensures
        match r {
            Some(v) => topics_field(es@, key@) == Some(v@),
            None => topics_field(es@, key@) is None,
        },
{
    match lookup_in(es, key) {
        None => Some(Vec::new()),
        Some(x) => match elements_of(x) {
            None => None,
            Some(xs) => {
                let mut out: Vec<TopicId> = Vec::new();
                let n = xs.len();
                let mut i: usize = 0;
                while i < n
                    invariant
                        n == xs@.len(),
                        i <= n,
                        all_topic_ids(xs@.take(i as int)),
                        lookup(es@, key@) == Some(*x),
                        elements(*x) == Some(xs@),
                        out@ == xs@.take(i as int).map_values(|e: Edn| integer_of(e) as i32),
                    decreases n - i,
                {
                    match &xs[i] {
                        Edn::Integer(k) => {
                            if -2147483648 <= *k && *k <= 2147483647 {
                                out.push(*k as i32);
                            } else {
                                assert(!all_topic_ids(xs@));
                                return None;
                            }
                        },
                        _ => {
                            assert(!(xs@[i as int] is Integer));
                            assert(!all_topic_ids(xs@));
                            return None;
                        },
                    }
                    assert(xs@.take(i + 1) =~= xs@.take(i as int).push(xs@[i as int]));
                    assert(out@ =~= xs@.take(i + 1).map_values(|e: Edn| integer_of(e) as i32));
                    i = i + 1;
                }
                assert(xs@.take(n as int) =~= xs@);
                Some(out)
            },
        },
    }
}

/// `id` followed by `suffix`.
fn message(id: &String, suffix: &str) -> (r: String)
    ensures
        r@ == id@ + suffix@,
{
    id.clone().concat(suffix)
}

fn schema(msg: String) -> (e: AiueError)
    ensures
        is_schema_error(e, msg@),
{
    AiueError::Schema(msg)
}

fn malformed_error(id: &String, field: &str) -> (e: AiueError)
    ensures
        is_schema_error(e, malformed(id@, field@)),
{
    let m = message(id, ": malformed :aiueos/").concat(field);
    schema(m)
}

/// The canonical message a manifest signature covers: the id and the
/// artifact hash, joined by a newline; `None` without an artifact hash.
pub open spec fn signed_message_spec(m: Manifest) -> Option<Seq<char>> {
    match m.wasm_sha256 {
        Some(h) => Some(m.id@ + "\n"@ + h@),
        None => None,
    }
}

impl Manifest {
    /// The canonical signed message, `"<id>\n<wasm-sha256>"`.
    pub fn signed_message(&self) -> (r: Option<String>)
        ensures
            opt_view(r) == signed_message_spec(*self),
    {
        match &self.wasm_sha256 {
            Some(h) => Some(self.id.clone().concat("\n").concat(h.as_str())),
            None => None,
        }
    }

    /// Read a manifest from its EDN map. Fails with a schema error, and the
    /// message `manifest_error` gives, exactly when the map is not a valid
    /// manifest.
    pub fn from_edn(v: &Edn) -> (r: Result<Manifest, AiueError>)
        ensures
            match r {
                Ok(m) => manifest_error(*v) is None && manifest_matches(m, *v),
                Err(e) => manifest_error(*v) is Some && is_schema_error(e, manifest_error(*v).unwrap()),
            },
    {
        let es = match v {
            Edn::MapOf(es) => es,
            _ => return Err(schema(String::from_str("manifest must be a map"))),
        };
        let id: &String = match lookup_in(es, "aiueos/component") {
            Some(Edn::Keyword(id)) => id,
            _ => return Err(schema(String::from_str("manifest missing :aiueos/component"))),
        };
        let kind = match lookup_in(es, "aiueos/kind") {
            Some(Edn::Keyword(k)) => match Kind::parse(k.as_str()) {
                Some(kind) => kind,
                None => return Err(schema(message(id, ": unknown :aiueos/kind ").concat(k.as_str()))),
            },
            _ => return Err(schema(message(id, ": missing :aiueos/kind"))),
        };
        let trust = match lookup_in(es, "aiueos/trust") {
            None => match kind {
                Kind::Agent => Trust::AiGenerated,
                Kind::KernelExtension => Trust::Trusted,
                _ => Trust::Untrusted,
            },
            Some(Edn::Keyword(t)) => match Trust::parse(t.as_str()) {
                Some(t) => t,
                None => return Err(schema(message(id, ": unknown :aiueos/trust ").concat(t.as_str()))),
            },
            Some(_) => return Err(malformed_error(id, "trust")),
        };
        if let Some(k) = first_unknown_key_of(es) {
            return Err(schema(message(id, ": unknown key :").concat(k.as_str())));
        }
        let limits = match limits_of(es) {
            Some(l) => l,
            None => return Err(malformed_error(id, "limits")),
        };
        let args = match args_of(es) {
            Some(a) => a,
            None => return Err(malformed_error(id, "args")),
        };
        let entry = match entry_of(es) {
            Some(e) => e,
            None => return Err(malformed_error(id, "entry")),
        };
        let source = match string_field_of(es, "aiueos/source") {
            Some(s) => s,
            None => return Err(malformed_error(id, "source")),
        };
        let wasm = match string_field_of(es, "aiueos/wasm") {
            Some(s) => s,
            None => return Err(malformed_error(id, "wasm")),
        };
        let wasm_sha256 = match string_field_of(es, "aiueos/wasm-sha256") {
            Some(s) => s,
            None => return Err(malformed_error(id, "wasm-sha256")),
        };
        let signer = match string_field_of(es, "aiueos/signer") {
            Some(s) => s,
            None => return Err(malformed_error(id, "signer")),
        };
        let signature = match string_field_of(es, "aiueos/signature") {
            Some(s) => s,
            None => return Err(malformed_error(id, "signature")),
        };
        let imports = match keywords_of(es, "aiueos/imports") {
            Some(c) => c,
            None => return Err(malformed_error(id, "imports")),
        };
        let exports = match keywords_of(es, "aiueos/exports") {
            Some(c) => c,
            None => return Err(malformed_error(id, "exports")),
        };
        let effects = match keywords_of(es, "aiueos/effects") {
            Some(c) => c,
            None => return Err(malformed_error(id, "effects")),
        };
        let required = match keywords_of(es, "aiueos/requires") {
            Some(c) => c,
            None => return Err(malformed_error(id, "requires")),
        };
        let publishes = match topics_of(es, "aiueos/publishes") {
            Some(c) => c,
            None => return Err(malformed_error(id, "publishes")),
        };
        let subscribes = match topics_of(es, "aiueos/subscribes") {
            Some(c) => c,
            None => return Err(malformed_error(id, "subscribes")),
        };
        Ok(Manifest {
            id: id.clone(),
            kind,
            trust,
            source,
            wasm,
            wasm_sha256,
            signer,
            signature,
            imports,
            exports,
            effects, requires: required,
            publishes,
            subscribes,
            limits,
            entry,
            args,
        })
    }
}

} // verus!
