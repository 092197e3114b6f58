//! The rule engine: independent heuristic rules over one package's metadata.

use vstd::prelude::*;
use crate::metadata::{today, Date, PackageMeta, PackageMetaView};
use crate::report::{count_of, lemma_count_add, lemma_count_one};
use crate::text::{decimal, decimal_text};

verus! {

/// How serious a finding is, ordered `Info < Warning < Critical`.
#[derive(Clone, Copy, Debug, PartialEq, Eq, Hash, Structural)]
pub enum Severity {
    Info,
    Warning,
    Critical,
}

impl Severity {
    /// The position of a severity in the order `Info < Warning < Critical`.
    pub open spec fn rank(self) -> nat {
        match self {
            Severity::Info => 0,
            Severity::Warning => 1,
            Severity::Critical => 2,
        }
    }
}

/// One rule's observation about one package.
#[derive(Clone, Debug)]
pub struct Insight {
    pub package: String,
    pub message: String,
    pub severity: Severity,
}

/// The mathematical value of an `Insight`.
pub ghost struct InsightView {
    pub package: Seq<char>,
    pub message: Seq<char>,
    pub severity: Severity,
}

impl View for Insight {
    type V = InsightView;

    open spec fn view(&self) -> InsightView {
        InsightView { package: self.package@, message: self.message@, severity: self.severity }
    }
}

/// Sizes above this many bytes are reported as large.
pub const LARGE_SIZE_BYTES: u64 = 200000;

/// Packages last published more than this many days ago are reported as stale.
pub const STALE_AFTER_DAYS: i64 = 365;

/// Packages with at most this many maintainers are reported.
pub const FEW_MAINTAINERS: usize = 1;

/// The views of a sequence of insights.
pub open spec fn views(s: Seq<Insight>) -> Seq<InsightView> {
    s.map_values(|i: Insight| i@)
}

pub open spec fn deprecation_message(reason: Seq<char>) -> Seq<char> {
    "⚠️ Deprecated: "@ + reason
}

/// A size in tenths of a kilobyte (1024 bytes), rounded to the nearest tenth, ties to even.
pub open spec fn kb_tenths(size: nat) -> nat {
    let q = size * 10 / 1024;
    let r = size * 10 % 1024;
    if r > 512 || (r == 512 && q % 2 == 1) {
        q + 1
    } else {
        q
    }
}

/// A size in kilobytes with one decimal place, such as `244.1`.
pub open spec fn kb_text(size: nat) -> Seq<char> {
    decimal(kb_tenths(size) / 10) + "."@ + decimal(kb_tenths(size) % 10)
}

pub open spec fn size_message(size: nat) -> Seq<char> {
    "🐘 Large size (~"@ + kb_text(size) + " KB)"@
}

pub open spec fn stale_message(age: nat) -> Seq<char> {
    "🕒 Last updated "@ + decimal(age) + " days ago"@
}

pub open spec fn maintainer_message() -> Seq<char> {
    "👤 Only one maintainer"@
}

/// The finding of the deprecation rule, if it triggers.
pub open spec fn deprecation_finding(m: PackageMetaView) -> Seq<InsightView> {
    match m.deprecated {
        Some(reason) => seq![
            InsightView {
                package: m.name,
                message: deprecation_message(reason),
                severity: Severity::Critical,
            },
        ],
        None => seq![],
    }
}

/// The finding of the size rule, if it triggers.
pub open spec fn size_finding(m: PackageMetaView) -> Seq<InsightView> {
    match m.unpacked_size {
        Some(v) => if v > LARGE_SIZE_BYTES {
            seq![InsightView { package: m.name, message: size_message(v), severity: Severity::Warning }]
        } else {
            seq![]
        },
        None => seq![],
    }
}

/// The finding of the staleness rule on day `today`, if it triggers.
pub open spec fn stale_finding(m: PackageMetaView, today: int) -> Seq<InsightView> {
    match m.last_updated {
        Some(d) => if today - d > STALE_AFTER_DAYS {
            seq![
                InsightView {
                    package: m.name,
                    message: stale_message((today - d) as nat),
                    severity: Severity::Warning,
                },
            ]
        } else {
            seq![]
        },
        None => seq![],
    }
}

/// The finding of the maintainer rule, if it triggers.
pub open spec fn maintainer_finding(m: PackageMetaView) -> Seq<InsightView> {
    if m.maintainer_count <= FEW_MAINTAINERS {
        seq![InsightView { package: m.name, message: maintainer_message(), severity: Severity::Info }]
    } else {
        seq![]
    }
}

/// Every rule's findings for `m` on day `today`, in rule order.
pub open spec fn findings(m: PackageMetaView, today: int) -> Seq<InsightView> {
    deprecation_finding(m) + size_finding(m) + stale_finding(m, today) + maintainer_finding(m)
}

fn size_text(size: u64) -> (r: String)
    ensures
        r@ == size_message(size as nat),
{
    let t: u128 = size as u128 * 10;
    let q: u128 = t / 1024;
    let rem: u128 = t % 1024;
    let tenths: u128 = if rem > 512 || (rem == 512 && q % 2 == 1) {
        q + 1
    } else {
        q
    };
    assert(tenths == kb_tenths(size as nat));
    let whole: u64 = (tenths / 10) as u64;
    let frac: u64 = (tenths % 10) as u64;
    let mut m = String::from_str("🐘 Large size (~");
    let w = decimal_text(whole);
    m.append(w.as_str());
    m.append(".");
    let f = decimal_text(frac);
    m.append(f.as_str());
    m.append(" KB)");
    assert(m@ =~= size_message(size as nat));
    m
}

/// Evaluates every rule on `meta`, taking `today` as the current date.
pub fn analyze_package_on(meta: &PackageMeta, today: Date) -> (r: Vec<Insight>)
    ensures
        views(r@) == findings(meta@, today.day as int),
{
    let ghost m = meta@;
    let mut out: Vec<Insight> = Vec::new();
    if let Some(reason) = &meta.deprecated {
        let mut msg = String::from_str("⚠️ Deprecated: ");
        msg.append(reason.as_str());
        out.push(Insight { package: meta.name.clone(), message: msg, severity: Severity::Critical });
    }
    assert(views(out@) =~= deprecation_finding(m));
    if let Some(size) = meta.unpacked_size {
        if size > LARGE_SIZE_BYTES {
            let msg = size_text(size);
            out.push(Insight { package: meta.name.clone(), message: msg, severity: Severity::Warning });
        }
    }
    assert(views(out@) =~= deprecation_finding(m) + size_finding(m));
    if let Some(updated) = meta.last_updated {
        let age: i64 = today.day as i64 - updated.day as i64;
        if age > STALE_AFTER_DAYS {
            let mut msg = String::from_str("🕒 Last updated ");
            let a = decimal_text(age as u64);
            msg.append(a.as_str());
            msg.append(" days ago");
            out.push(Insight { package: meta.name.clone(), message: msg, severity: Severity::Warning });
        }
    }
    assert(views(out@) =~= deprecation_finding(m) + size_finding(m) + stale_finding(m, today.day as int));
    if meta.maintainer_count <= FEW_MAINTAINERS {
        let msg = String::from_str("👤 Only one maintainer");
        out.push(Insight { package: meta.name.clone(), message: msg, severity: Severity::Info });
    }
    assert(views(out@) =~= findings(m, today.day as int));
    out
}

/// Evaluates every rule on `meta`, taking the current UTC date for the staleness rule.
pub fn analyze_package(meta: &PackageMeta) -> (r: Vec<Insight>)
    ensures
        exists|d: Date| views(r@) == findings(meta@, d.day as int),
{
    let d = today();
    analyze_package_on(meta, d)
}

/// A deprecated package gets exactly one critical finding, and its message holds the
/// deprecation reason verbatim.
pub proof fn deprecation_gives_one_critical(m: PackageMetaView, today: int, reason: Seq<char>)
    requires
        m.deprecated == Some(reason),
    ensures
        count_of(findings(m, today), Severity::Critical) == 1,
        findings(m, today)[0].severity == Severity::Critical,
        findings(m, today)[0].message.subrange(
            "⚠️ Deprecated: "@.len() as int,
            findings(m, today)[0].message.len() as int,
        ) == reason,
{
    let sev = Severity::Critical;
    let (a, b, c, d) = (deprecation_finding(m), size_finding(m), stale_finding(m, today), maintainer_finding(m));
    lemma_count_add(a, b, sev);
    lemma_count_add(a + b, c, sev);
    lemma_count_add(a + b + c, d, sev);
    lemma_count_one(a[0], sev);
    if b.len() > 0 {
        lemma_count_one(b[0], sev);
        assert(b =~= seq![b[0]]);
    } else {
        assert(b =~= Seq::<InsightView>::empty());
    }
    if c.len() > 0 {
        lemma_count_one(c[0], sev);
        assert(c =~= seq![c[0]]);
    } else {
        assert(c =~= Seq::<InsightView>::empty());
    }
    if d.len() > 0 {
        lemma_count_one(d[0], sev);
        assert(d =~= seq![d[0]]);
    } else {
        assert(d =~= Seq::<InsightView>::empty());
    }
    assert(a =~= seq![a[0]]);
    assert(findings(m, today)[0] == a[0]);
    assert(deprecation_message(reason).subrange("⚠️ Deprecated: "@.len() as int, deprecation_message(reason).len() as int) =~= reason);
}

/// The size rule gives one warning exactly when the size exceeds 200,000 bytes, and the
/// kilobytes it prints are the size divided by 1024, to the nearest tenth.
pub proof fn size_rule_threshold(m: PackageMetaView, v: nat)
    requires
        m.unpacked_size == Some(v),
    ensures
        size_finding(m).len() == (if v > LARGE_SIZE_BYTES { 1int } else { 0int }),
        v > LARGE_SIZE_BYTES ==> size_finding(m)[0].severity == Severity::Warning
            && size_finding(m)[0].message == size_message(v),
        kb_tenths(v) * 1024 <= v * 10 + 512,
        v * 10 <= kb_tenths(v) * 1024 + 512,
{
    let t = v * 10;
    vstd::arithmetic::div_mod::lemma_fundamental_div_mod(t as int, 1024);
    assert(0 <= t % 1024 < 1024);
}

/// The staleness rule gives one warning exactly when the last publish lies more than
/// 365 days before `today`: 365 days do not trigger it, 366 days do.
pub proof fn staleness_threshold(m: PackageMetaView, today: int, d: int)
    requires
        m.last_updated == Some(d),
    ensures
        stale_finding(m, today).len() == (if today - d > 365 { 1int } else { 0int }),
        today - d == 365 ==> stale_finding(m, today).len() == 0,
        today - d == 366 ==> stale_finding(m, today).len() == 1,
        today - d > 365 ==> stale_finding(m, today)[0].severity == Severity::Warning,
{
}

/// The maintainer rule triggers exactly on zero or one maintainer; two never trigger it.
pub proof fn maintainer_threshold(m: PackageMetaView)
    ensures
        maintainer_finding(m).len() == 1 <==> (m.maintainer_count == 0 || m.maintainer_count == 1),
        maintainer_finding(m).len() == 0 <==> m.maintainer_count >= 2,
        m.maintainer_count == 2 ==> maintainer_finding(m).len() == 0,
{
}

/// Evaluation keeps no state: the same metadata on the same day gives the same findings.
pub proof fn evaluation_is_repeatable(a: PackageMeta, b: PackageMeta, today: Date)
    requires
        a@ == b@,
    ensures
        findings(a@, today.day as int) == findings(b@, today.day as int),
{
}

/// At most one finding per rule.
pub proof fn lemma_findings_len(m: PackageMetaView, today: int)
    ensures
        findings(m, today).len() <= 4,
{
}

} // verus!
