//! Compliance: the edit distance that sanctions screening compares names by,
//! and the verdict of a check, which blocks on any critical or high alert.
use vstd::prelude::*;
use crate::models::{ComplianceAlert, ComplianceCheckResult};
use crate::text::{chars_of, str_eq};

verus! {

/// What `str::to_lowercase` gives for a text (Unicode lower case).
pub uninterp spec fn lowercase_text(s: Seq<char>) -> Seq<char>;

/// `str::to_lowercase`: the lower-case form of `s`, whose text `lowercase_text`
/// names.  Being a `String`, it holds at most `isize::MAX` bytes, so at most as
/// many characters.
#[verifier::external_body]
fn lowercase(s: &str) -> (r: String)
    ensures
        r@ == lowercase_text(s@),
        r@.len() <= isize::MAX,
{
    s.to_lowercase()
}

/// The smallest of three numbers.
pub open spec fn min3(x: nat, y: nat, z: nat) -> nat {
    if x <= y && x <= z {
        x
    } else if y <= z {
        y
    } else {
        z
    }
}

/// The edit distance between the first `i` characters of `a` and the first `j`
/// of `b`: the fewest insertions, deletions and substitutions that turn one
/// into the other.
pub open spec fn edit_distance(a: Seq<char>, b: Seq<char>, i: nat, j: nat) -> nat
    decreases i + j,
{
    if i == 0 {
        j
    } else if j == 0 {
        i
    } else {
        min3(
            edit_distance(a, b, (i - 1) as nat, j) + 1,
            edit_distance(a, b, i, (j - 1) as nat) + 1,
            edit_distance(a, b, (i - 1) as nat, (j - 1) as nat) + (if a[i - 1] == b[j - 1] {
                0nat
            } else {
                1nat
            }),
        )
    }
}

/// The edit distance of two whole texts.
pub open spec fn levenshtein(a: Seq<char>, b: Seq<char>) -> nat {
    edit_distance(a, b, a.len(), b.len())
}

/// The edit distance of prefixes is at most the sum of their lengths.
proof fn lemma_edit_distance_bound(a: Seq<char>, b: Seq<char>, i: nat, j: nat)
    ensures
        edit_distance(a, b, i, j) <= i + j,
    decreases i + j,
{
    if i > 0 && j > 0 {
        lemma_edit_distance_bound(a, b, (i - 1) as nat, j);
    }
}

/// The Levenshtein distance between the lower-case forms of `a` and `b`,
/// counted in characters.
pub fn levenshtein_distance(a: &str, b: &str) -> (r: usize)
    ensures
        r == levenshtein(lowercase_text(a@), lowercase_text(b@)),
{
    let la = lowercase(a);
    let lb = lowercase(b);
    let a_chars = chars_of(la.as_str());
    let b_chars = chars_of(lb.as_str());
    let ghost sa = a_chars@;
    let ghost sb = b_chars@;
    let alen = a_chars.len();
    let blen = b_chars.len();
    if alen == 0 {
        return blen;
    }
    if blen == 0 {
        return alen;
    }
    let mut prev: Vec<usize> = Vec::new();
    let mut j: usize = 0;
    while j <= blen
        invariant
            blen == sb.len(),
            blen <= isize::MAX,
            j <= blen + 1,
            prev@.len() == j,
            forall|k: int| 0 <= k < j ==> #[trigger] prev@[k] == edit_distance(sa, sb, 0, k as nat),
        decreases blen + 1 - j,
    {
        prev.push(j);
        j = j + 1;
    }
    let mut curr: Vec<usize> = vec![0usize; blen + 1];
    let mut i: usize = 1;
    while i <= alen
        invariant
            alen == sa.len(),
            blen == sb.len(),
            a_chars@ == sa,
            b_chars@ == sb,
            alen <= isize::MAX,
            blen <= isize::MAX,
            1 <= i <= alen + 1,
            0 < blen,
            prev@.len() == blen + 1,
            curr@.len() == blen + 1,
            forall|k: int| 0 <= k <= blen ==> #[trigger] prev@[k] == edit_distance(sa, sb, (i - 1) as nat, k as nat),
        decreases alen + 1 - i,
    {
        curr.set(0, i);
        let mut j: usize = 1;
        while j <= blen
            invariant
                alen == sa.len(),
                blen == sb.len(),
                a_chars@ == sa,
                b_chars@ == sb,
                alen <= isize::MAX,
                blen <= isize::MAX,
                1 <= i <= alen,
                1 <= j <= blen + 1,
                prev@.len() == blen + 1,
                curr@.len() == blen + 1,
                forall|k: int| 0 <= k <= blen ==> #[trigger] prev@[k] == edit_distance(sa, sb, (i - 1) as nat, k as nat),
                forall|k: int| 0 <= k < j ==> #[trigger] curr@[k] == edit_distance(sa, sb, i as nat, k as nat),
            decreases blen + 1 - j,
        {
            proof {
                lemma_edit_distance_bound(sa, sb, (i - 1) as nat, j as nat);
                lemma_edit_distance_bound(sa, sb, i as nat, (j - 1) as nat);
                lemma_edit_distance_bound(sa, sb, (i - 1) as nat, (j - 1) as nat);
            }
            let cost: usize = if a_chars[i - 1] == b_chars[j - 1] {
                0
            } else {
                1
            };
            let x = prev[j] + 1;
            let y = curr[j - 1] + 1;
            let z = prev[j - 1] + cost;
            let m = if x <= y && x <= z {
                x
            } else if y <= z {
                y
            } else {
                z
            };
            curr.set(j, m);
            j = j + 1;
        }
        std::mem::swap(&mut prev, &mut curr);
        i = i + 1;
    }
    prev[blen]
}

/// The edit distance between equal prefixes of one text is zero.
proof fn lemma_edit_distance_self(a: Seq<char>, i: nat)
    ensures
        edit_distance(a, a, i, i) == 0,
    decreases i,
{
    if i > 0 {
        lemma_edit_distance_self(a, (i - 1) as nat);
    }
}

/// Law (identical names): a name is at distance zero from itself.
pub proof fn law_distance_to_itself(a: Seq<char>)
    ensures
        levenshtein(lowercase_text(a), lowercase_text(a)) == 0,
{
    lemma_edit_distance_self(lowercase_text(a), lowercase_text(a).len());
}

/// The edit distance does not depend on the order of the two texts.
proof fn lemma_edit_distance_symmetric(a: Seq<char>, b: Seq<char>, i: nat, j: nat)
    ensures
        edit_distance(a, b, i, j) == edit_distance(b, a, j, i),
    decreases i + j,
{
    if i > 0 && j > 0 {
        lemma_edit_distance_symmetric(a, b, (i - 1) as nat, j);
        lemma_edit_distance_symmetric(a, b, i, (j - 1) as nat);
        lemma_edit_distance_symmetric(a, b, (i - 1) as nat, (j - 1) as nat);
    }
}

/// Law (symmetry): the distance from `a` to `b` is the distance from `b` to `a`.
pub proof fn law_distance_symmetric(a: Seq<char>, b: Seq<char>)
    ensures
        levenshtein(lowercase_text(a), lowercase_text(b)) == levenshtein(lowercase_text(b), lowercase_text(a)),
{
    lemma_edit_distance_symmetric(lowercase_text(a), lowercase_text(b), lowercase_text(a).len(), lowercase_text(b).len());
}

/// The edit distance of prefixes is at least the difference of their lengths
/// and at most the longer length.
proof fn lemma_edit_distance_length_bounds(a: Seq<char>, b: Seq<char>, i: nat, j: nat)
    ensures
        i - j <= edit_distance(a, b, i, j),
        j - i <= edit_distance(a, b, i, j),
        edit_distance(a, b, i, j) <= if i >= j { i } else { j },
    decreases i + j,
{
    if i > 0 && j > 0 {
        lemma_edit_distance_length_bounds(a, b, (i - 1) as nat, j);
        lemma_edit_distance_length_bounds(a, b, i, (j - 1) as nat);
        lemma_edit_distance_length_bounds(a, b, (i - 1) as nat, (j - 1) as nat);
    }
}

/// The edit distance of prefixes is zero exactly when the prefixes are equal.
proof fn lemma_edit_distance_zero(a: Seq<char>, b: Seq<char>, i: nat, j: nat)
    requires
        i <= a.len(),
        j <= b.len(),
    ensures
        edit_distance(a, b, i, j) == 0 <==> (i == j && a.subrange(0, i as int) == b.subrange(0, j as int)),
    decreases i + j,
{
    lemma_edit_distance_length_bounds(a, b, i, j);
    if i > 0 && j > 0 {
        lemma_edit_distance_zero(a, b, (i - 1) as nat, (j - 1) as nat);
        lemma_edit_distance_length_bounds(a, b, (i - 1) as nat, j);
        lemma_edit_distance_length_bounds(a, b, i, (j - 1) as nat);
        if i == j && a.subrange(0, i as int) == b.subrange(0, j as int) {
            assert(a.subrange(0, i - 1) =~= a.subrange(0, i as int).drop_last());
            assert(b.subrange(0, j - 1) =~= b.subrange(0, j as int).drop_last());
            assert(a[i - 1] == a.subrange(0, i as int)[i - 1]);
            assert(b[j - 1] == b.subrange(0, j as int)[j - 1]);
        }
        if edit_distance(a, b, i, j) == 0 {
            assert(a.subrange(0, i as int) =~= a.subrange(0, i - 1).push(a[i - 1]));
            assert(b.subrange(0, j as int) =~= b.subrange(0, j - 1).push(b[j - 1]));
        }
    } else {
        assert(a.subrange(0, 0) =~= b.subrange(0, 0));
    }
}

/// The edit distance of prefixes obeys the triangle inequality.
proof fn lemma_edit_distance_triangle(a: Seq<char>, b: Seq<char>, c: Seq<char>, i: nat, j: nat, k: nat)
    ensures
        edit_distance(a, c, i, k) <= edit_distance(a, b, i, j) + edit_distance(b, c, j, k),
    decreases i + j + k,
{
    if i == 0 {
        lemma_edit_distance_length_bounds(b, c, j, k);
    } else if k == 0 {
        lemma_edit_distance_length_bounds(a, b, i, j);
    } else if j == 0 {
        lemma_edit_distance_bound(a, c, i, k);
    } else {
        let i1 = (i - 1) as nat;
        let j1 = (j - 1) as nat;
        let k1 = (k - 1) as nat;
        let ab = edit_distance(a, b, i, j);
        let bc = edit_distance(b, c, j, k);
        let c_ab: nat = if a[i - 1] == b[j - 1] { 0 } else { 1 };
        let c_bc: nat = if b[j - 1] == c[k - 1] { 0 } else { 1 };
        if ab == edit_distance(a, b, i1, j) + 1 {
            lemma_edit_distance_triangle(a, b, c, i1, j, k);
        } else if bc == edit_distance(b, c, j, k1) + 1 {
            lemma_edit_distance_triangle(a, b, c, i, j, k1);
        } else if ab == edit_distance(a, b, i, j1) + 1 {
            if bc == edit_distance(b, c, j1, k) + 1 {
                lemma_edit_distance_triangle(a, b, c, i, j1, k);
            } else {
                assert(bc == edit_distance(b, c, j1, k1) + c_bc);
                lemma_edit_distance_triangle(a, b, c, i, j1, k1);
            }
        } else {
            assert(ab == edit_distance(a, b, i1, j1) + c_ab);
            if bc == edit_distance(b, c, j1, k) + 1 {
                lemma_edit_distance_triangle(a, b, c, i1, j1, k);
            } else {
                assert(bc == edit_distance(b, c, j1, k1) + c_bc);
                lemma_edit_distance_triangle(a, b, c, i1, j1, k1);
            }
        }
    }
}

/// Law (triangle): going from `a` to `c` by way of `b` is never shorter than
/// going directly.
pub proof fn law_distance_triangle(a: Seq<char>, b: Seq<char>, c: Seq<char>)
    ensures
        levenshtein(lowercase_text(a), lowercase_text(c)) <= levenshtein(lowercase_text(a), lowercase_text(b))
            + levenshtein(lowercase_text(b), lowercase_text(c)),
{
    let (la, lb, lc) = (lowercase_text(a), lowercase_text(b), lowercase_text(c));
    lemma_edit_distance_triangle(la, lb, lc, la.len(), lb.len(), lc.len());
}

/// Law (zero only on equal names): the distance is zero exactly when the two
/// lower-case texts are equal.
pub proof fn law_distance_zero_iff_equal(a: Seq<char>, b: Seq<char>)
    ensures
        levenshtein(lowercase_text(a), lowercase_text(b)) == 0 <==> lowercase_text(a) == lowercase_text(b),
{
    let (la, lb) = (lowercase_text(a), lowercase_text(b));
    lemma_edit_distance_zero(la, lb, la.len(), lb.len());
    assert(la.subrange(0, la.len() as int) =~= la);
    assert(lb.subrange(0, lb.len() as int) =~= lb);
}

/// Law (length bounds): the distance is at least the difference of the two
/// lower-case lengths and at most the longer of them.
pub proof fn law_distance_length_bounds(a: Seq<char>, b: Seq<char>)
    ensures
        lowercase_text(a).len() - lowercase_text(b).len() <= levenshtein(lowercase_text(a), lowercase_text(b)),
        lowercase_text(b).len() - lowercase_text(a).len() <= levenshtein(lowercase_text(a), lowercase_text(b)),
        levenshtein(lowercase_text(a), lowercase_text(b)) <= if lowercase_text(a).len() >= lowercase_text(b).len() {
            lowercase_text(a).len()
        } else {
            lowercase_text(b).len()
        },
{
    let (la, lb) = (lowercase_text(a), lowercase_text(b));
    lemma_edit_distance_length_bounds(la, lb, la.len(), lb.len());
}

/// The number of bytes of a text in UTF-8, as `str::len` gives it.
pub open spec fn byte_count(s: Seq<char>) -> int {
    (vstd::utf8::encode_utf8(s).len() as usize) as int
}

/// The length screening divides the distance by: the longer of the two
/// byte lengths, and at least 1.
pub open spec fn screening_span(q: Seq<char>, t: Seq<char>) -> int {
    let m = if byte_count(q) >= byte_count(t) { byte_count(q) } else { byte_count(t) };
    if m >= 1 { m } else { 1 }
}

/// Whether screening flags `t` for the name `q`: the score
/// `1 - distance / span` reaches 0.75, that is, four times the case-blind
/// edit distance is at most the span.
pub open spec fn is_screening_match(q: Seq<char>, t: Seq<char>) -> bool {
    4 * levenshtein(lowercase_text(q), lowercase_text(t)) <= screening_span(q, t)
}

/// Whether sanctions screening flags the listed name `target` for the
/// counterparty `query` (a match score of at least 0.75).
pub fn screening_match(query: &str, target: &str) -> (r: bool)
    ensures
        r == is_screening_match(query@, target@),
{
    let d = levenshtein_distance(query, target);
    let ql = query.len();
    let tl = target.len();
    let longer = if ql >= tl { ql } else { tl };
    let span = if longer >= 1 { longer } else { 1 };
    assert(4 * (d as int) <= span as int <==> (d as int) <= (span as int) / 4) by (nonlinear_arith);
    d <= span / 4
}

/// A listed entity as screening reads it: its full name, its aliases (none
/// where the list holds no readable list of alias texts) and its risk level.
#[derive(Debug, Clone)]
pub struct SanctionedName {
    pub full_name: String,
    pub aliases: Option<Vec<String>>,
    pub risk_level: String,
}

/// A name that screening flagged: the entity's position in the list, the
/// alias's position among its aliases (none for the entity's own name), and the
/// alert's severity, the entity's risk level in lower case.
#[derive(Debug, Clone)]
pub struct SanctionsHit {
    pub entity: usize,
    pub alias: Option<usize>,
    pub severity: String,
}

/// A hit as plain values.
pub open spec fn hit_view(h: SanctionsHit) -> (int, Option<int>, Seq<char>) {
    (
        h.entity as int,
        match h.alias {
            Some(a) => Some(a as int),
            None => None,
        },
        h.severity@,
    )
}

/// The hits among the first `n` aliases of entity `e`, in order.
pub open spec fn alias_hits(q: Seq<char>, aliases: Seq<String>, e: int, sev: Seq<char>, n: int) -> Seq<
    (int, Option<int>, Seq<char>),
>
    decreases n,
{
    if n <= 0 {
        seq![]
    } else if is_screening_match(q, aliases[n - 1]@) {
        alias_hits(q, aliases, e, sev, n - 1).push((e, Some(n - 1), sev))
    } else {
        alias_hits(q, aliases, e, sev, n - 1)
    }
}

/// The hits of entity `e`: its own name first, then its aliases in order.
pub open spec fn entity_hits(q: Seq<char>, en: SanctionedName, e: int) -> Seq<(int, Option<int>, Seq<char>)> {
    let sev = lowercase_text(en.risk_level@);
    let own: Seq<(int, Option<int>, Seq<char>)> = if is_screening_match(q, en.full_name@) {
        seq![(e, None, sev)]
    } else {
        seq![]
    };
    own + match en.aliases {
        Some(v) => alias_hits(q, v@, e, sev, v@.len() as int),
        None => seq![],
    }
}

/// The hits of the first `n` entities, entity by entity.
pub open spec fn all_hits(q: Seq<char>, es: Seq<SanctionedName>, n: int) -> Seq<(int, Option<int>, Seq<char>)>
    decreases n,
{
    if n <= 0 {
        seq![]
    } else {
        all_hits(q, es, n - 1) + entity_hits(q, es[n - 1], n - 1)
    }
}

/// Sanctions screening of a counterparty against a list: for each entity in
/// order, a hit for its name where it matches, then one for each matching alias.
pub fn sanctions_hits(counterparty: &str, entities: &Vec<SanctionedName>) -> (r: Vec<SanctionsHit>)
    ensures
        r@.map_values(|h: SanctionsHit| hit_view(h)) == all_hits(counterparty@, entities@, entities@.len() as int),
{
    let mut hits: Vec<SanctionsHit> = Vec::new();
    let mut e: usize = 0;
    while e < entities.len()
        invariant
            e <= entities@.len(),
            hits@.map_values(|h: SanctionsHit| hit_view(h)) == all_hits(counterparty@, entities@, e as int),
        decreases entities.len() - e,
    {
        let en = &entities[e];
        let ghost before = hits@.map_values(|h: SanctionsHit| hit_view(h));
        let sev = lowercase(en.risk_level.as_str());
        if screening_match(counterparty, en.full_name.as_str()) {
            hits.push(SanctionsHit { entity: e, alias: None, severity: sev.clone() });
        }
        let ghost mid = hits@.map_values(|h: SanctionsHit| hit_view(h));
        let ghost own: Seq<(int, Option<int>, Seq<char>)> = if is_screening_match(counterparty@, en.full_name@) {
            seq![(e as int, None, sev@)]
        } else {
            seq![]
        };
        assert(mid =~= before + own);
        match &en.aliases {
            Some(v) => {
                let mut k: usize = 0;
                while k < v.len()
                    invariant
                        k <= v@.len(),
                        hits@.map_values(|h: SanctionsHit| hit_view(h)) == mid + alias_hits(
                            counterparty@,
                            v@,
                            e as int,
                            sev@,
                            k as int,
                        ),
                    decreases v.len() - k,
                {
                    let ghost pre = hits@.map_values(|h: SanctionsHit| hit_view(h));
                    if screening_match(counterparty, v[k].as_str()) {
                        hits.push(SanctionsHit { entity: e, alias: Some(k), severity: sev.clone() });
                        assert(hits@.map_values(|h: SanctionsHit| hit_view(h)) =~= pre.push(
                            (e as int, Some(k as int), sev@),
                        ));
                    }
                    k = k + 1;
                }
                assert(hits@.map_values(|h: SanctionsHit| hit_view(h)) =~= before + entity_hits(
                    counterparty@,
                    *en,
                    e as int,
                ));
            },
            None => {
                assert(hits@.map_values(|h: SanctionsHit| hit_view(h)) =~= before + entity_hits(
                    counterparty@,
                    *en,
                    e as int,
                ));
            },
        }
        e = e + 1;
    }
    hits
}

/// Whether an alert's severity blocks the transaction: "critical" or "high".
pub open spec fn is_blocking(severity: Seq<char>) -> bool {
    severity == "critical"@ || severity == "high"@
}

/// Whether some alert of `alerts` blocks.
pub open spec fn any_blocking(alerts: Seq<ComplianceAlert>) -> bool {
    exists|i: int| 0 <= i < alerts.len() && is_blocking(#[trigger] alerts[i].severity@)
}

/// The verdict on the sanctions alerts and then the AML alerts of a
/// transaction: all of them, blocked when any is critical or high, passed
/// otherwise.
pub fn check_result(sanctions_alerts: Vec<ComplianceAlert>, aml_alerts: Vec<ComplianceAlert>) -> (r: ComplianceCheckResult)
    ensures
        r.alerts@ == sanctions_alerts@ + aml_alerts@,
        r.blocked == any_blocking(r.alerts@),
        r.passed == !r.blocked,
{
    let mut all = sanctions_alerts;
    let mut rest = aml_alerts;
    all.append(&mut rest);
    let mut blocked = false;
    let mut i: usize = 0;
    while i < all.len()
        invariant
            i <= all@.len(),
            blocked == exists|k: int| 0 <= k < i && is_blocking(#[trigger] all@[k].severity@),
        decreases all.len() - i,
    {
        let sev = all[i].severity.as_str();
        if str_eq(sev, "critical") || str_eq(sev, "high") {
            blocked = true;
        }
        i = i + 1;
    }
    ComplianceCheckResult { passed: !blocked, blocked, alerts: all }
}

} // verus!
