//! The scope uniqueness primitive: an ephemeral map from interned name to
//! the position of its first-seen declaration, together with the
//! mathematical model of checking one flat scope.
//!
//! A [`Scope`] lives for one uniqueness check of one declarative region and
//! is discarded afterwards; it is not a symbol table and carries no
//! resolution information.

use vstd::prelude::*;
use std::collections::HashMap;
use crate::ast::{Ident, Position};
use crate::diagnostic::Diagnostic;

verus! {

broadcast use vstd::std_specs::hash::group_hash_axioms;

/// The scope map after one uniqueness check of `id`: a first occurrence is
/// recorded, while a duplicate leaves the stored position unchanged, so a
/// third occurrence is still reported against the original declaration.
pub open spec fn scope_step(scope: Map<u64, Position>, id: Ident) -> Map<u64, Position> {
    if scope.contains_key(id.name) {
        scope
    } else {
        scope.insert(id.name, id.pos)
    }
}

/// The diagnostics that one uniqueness check of `id` emits: exactly one
/// duplicate report when the name is already bound in the scope, anchored
/// at the stored (first-seen) position, and none otherwise.
pub open spec fn scope_report(scope: Map<u64, Position>, id: Ident) -> Seq<Diagnostic> {
    if scope.contains_key(id.name) {
        seq![Diagnostic::spec_duplicate(id.name, id.pos, scope[id.name])]
    } else {
        Seq::empty()
    }
}

/// The scope map after checking the first `i` entries of one flat scope.
/// An entry is the contributing identifier of a declaration, or `None` for
/// a declaration that is exempt from the check.
pub open spec fn scope_upto(entries: Seq<Option<Ident>>, i: int) -> Map<u64, Position>
    decreases i,
{
    if i <= 0 {
        Map::empty()
    } else {
        let prev = scope_upto(entries, i - 1);
        match entries[i - 1] {
            Some(id) => scope_step(prev, id),
            None => prev,
        }
    }
}

/// The diagnostics emitted while checking the first `i` entries of one flat
/// scope, in entry order.
pub open spec fn reports_upto(entries: Seq<Option<Ident>>, i: int) -> Seq<Diagnostic>
    decreases i,
{
    if i <= 0 {
        Seq::empty()
    } else {
        let step = match entries[i - 1] {
            Some(id) => scope_report(scope_upto(entries, i - 1), id),
            None => Seq::empty(),
        };
        reports_upto(entries, i - 1) + step
    }
}

/// All diagnostics of one flat scope: every entry checked in order against
/// a scope that starts out empty.
pub open spec fn scope_diagnostics(entries: Seq<Option<Ident>>) -> Seq<Diagnostic> {
    reports_upto(entries, entries.len() as int)
}

/// True when entry `j` of one flat scope contributes an identifier binding
/// `name`.
pub open spec fn declares(entries: Seq<Option<Ident>>, j: int, name: u64) -> bool {
    &&& 0 <= j < entries.len()
    &&& entries[j] is Some
    &&& entries[j]->0.name == name
}

/// True when entry `j` is the first declaration of `name` in its scope.
pub open spec fn first_declaration(entries: Seq<Option<Ident>>, j: int, name: u64) -> bool {
    &&& declares(entries, j, name)
    &&& forall|k: int| 0 <= k < j ==> !(#[trigger] declares(entries, k, name))
}

/// True when no two entries before `i` contribute the same name.
pub open spec fn no_duplicates_upto(entries: Seq<Option<Ident>>, i: int) -> bool {
    forall|j: int, k: int, name: u64|
        #![trigger declares(entries, j, name), declares(entries, k, name)]
        j < i && k < i && declares(entries, j, name) && declares(entries, k, name) ==> j == k
}

/// True when the contributing identifiers of one flat scope have pairwise
/// distinct names.
pub open spec fn unique_names(entries: Seq<Option<Ident>>) -> bool {
    no_duplicates_upto(entries, entries.len() as int)
}

/// After checking the first `i` entries, the scope binds exactly the names
/// contributed by those entries, and binds each to the position of its
/// first declaration: later occurrences never displace it.
pub proof fn lemma_scope_upto_first_seen(entries: Seq<Option<Ident>>, i: int)
    requires
        0 <= i <= entries.len(),
    ensures
        forall|name: u64|
            #[trigger] scope_upto(entries, i).contains_key(name) <==> exists|j: int|
                0 <= j < i && #[trigger] declares(entries, j, name),
        forall|j: int, name: u64|
            0 <= j < i && #[trigger] first_declaration(entries, j, name) ==> scope_upto(
                entries,
                i,
            ).contains_key(name) && scope_upto(entries, i)[name] == entries[j]->0.pos,
    decreases i,
{
    if i > 0 {
        lemma_scope_upto_first_seen(entries, i - 1);
        assert forall|name: u64| #[trigger]
            scope_upto(entries, i).contains_key(name) implies exists|j: int|
            0 <= j < i && #[trigger] declares(entries, j, name) by {
            if scope_upto(entries, i - 1).contains_key(name) {
                let j = choose|j: int| 0 <= j < i - 1 && #[trigger] declares(entries, j, name);
                assert(declares(entries, j, name));
            } else {
                assert(declares(entries, i - 1, name));
            }
        }
        assert forall|name: u64|
            (exists|j: int| 0 <= j < i && #[trigger] declares(entries, j, name)) implies #[trigger]
            scope_upto(entries, i).contains_key(name) by {
            let j = choose|j: int| 0 <= j < i && #[trigger] declares(entries, j, name);
            if j < i - 1 {
                assert(scope_upto(entries, i - 1).contains_key(name));
            }
        }
        assert forall|j: int, name: u64|
            0 <= j < i && #[trigger] first_declaration(entries, j, name) implies scope_upto(
            entries,
            i,
        ).contains_key(name) && scope_upto(entries, i)[name] == entries[j]->0.pos by {
            if j < i - 1 {
                assert(scope_upto(entries, i - 1)[name] == entries[j]->0.pos);
            } else {
                assert(declares(entries, i - 1, name));
                if scope_upto(entries, i - 1).contains_key(name) {
                    let k = choose|k: int|
                        0 <= k < i - 1 && #[trigger] declares(entries, k, name);
                    assert(false);
                }
            }
        }
    }
}

/// Checking one more entry never removes a diagnostic: the sink is
/// append-only and checking continues across the remainder of the scope.
pub proof fn lemma_reports_upto_monotone(entries: Seq<Option<Ident>>, i1: int, i2: int)
    requires
        0 <= i1 <= i2,
    ensures
        reports_upto(entries, i1).len() <= reports_upto(entries, i2).len(),
    decreases i2 - i1,
{
    if i1 < i2 {
        lemma_reports_upto_monotone(entries, i1, i2 - 1);
    }
}

/// Uniqueness: a flat scope whose contributing identifiers have pairwise
/// distinct names produces no diagnostics.
pub proof fn lemma_unique_names_no_diagnostics(entries: Seq<Option<Ident>>)
    requires
        unique_names(entries),
    ensures
        scope_diagnostics(entries) == Seq::<Diagnostic>::empty(),
{
    lemma_no_duplicates_reports_empty(entries, entries.len() as int);
}

/// The prefix form of [`lemma_unique_names_no_diagnostics`]: no duplicate
/// among the first `i` entries means no report from them.
proof fn lemma_no_duplicates_reports_empty(entries: Seq<Option<Ident>>, i: int)
    requires
        0 <= i <= entries.len(),
        no_duplicates_upto(entries, i),
    ensures
        reports_upto(entries, i) == Seq::<Diagnostic>::empty(),
    decreases i,
{
    if i > 0 {
        assert forall|j: int, k: int, name: u64|
            #![trigger declares(entries, j, name), declares(entries, k, name)]
            j < i - 1 && k < i - 1 && declares(entries, j, name) && declares(entries, k, name)
            implies j == k by {}
        lemma_no_duplicates_reports_empty(entries, i - 1);
        match entries[i - 1] {
            Some(id) => {
                lemma_scope_upto_first_seen(entries, i - 1);
                if scope_upto(entries, i - 1).contains_key(id.name) {
                    let j = choose|j: int|
                        0 <= j < i - 1 && #[trigger] declares(entries, j, id.name);
                    assert(declares(entries, i - 1, id.name));
                    assert(false);
                }
                assert(reports_upto(entries, i) =~= Seq::<Diagnostic>::empty());
            },
            None => {
                assert(reports_upto(entries, i) =~= Seq::<Diagnostic>::empty());
            },
        }
    }
}

/// The converse of uniqueness: two contributing entries binding the same
/// name always produce at least one diagnostic.
pub proof fn lemma_duplicate_yields_diagnostic(
    entries: Seq<Option<Ident>>,
    j: int,
    k: int,
    name: u64,
)
    requires
        j != k,
        declares(entries, j, name),
        declares(entries, k, name),
    ensures
        scope_diagnostics(entries).len() > 0,
{
    let lo = if j < k { j } else { k };
    let hi = if j < k { k } else { j };
    lemma_scope_upto_first_seen(entries, hi);
    assert(declares(entries, lo, name));
    assert(scope_upto(entries, hi).contains_key(name));
    assert(reports_upto(entries, hi + 1).len() > 0);
    lemma_reports_upto_monotone(entries, hi + 1, entries.len() as int);
}

/// A flat scope produces no diagnostics exactly when its contributing
/// identifiers have pairwise distinct names: a duplicate is reported if and
/// only if one exists.
pub proof fn lemma_no_diagnostics_iff_unique(entries: Seq<Option<Ident>>)
    ensures
        scope_diagnostics(entries).len() == 0 <==> unique_names(entries),
{
    if unique_names(entries) {
        lemma_unique_names_no_diagnostics(entries);
    }
    if scope_diagnostics(entries).len() == 0 && !unique_names(entries) {
        let (j, k, name): (int, int, u64) = choose|j: int, k: int, name: u64|
            declares(entries, j, name) && declares(entries, k, name) && j != k;
        lemma_duplicate_yields_diagnostic(entries, j, k, name);
    }
}

/// First-occurrence anchoring: every diagnostic of a flat scope points back
/// to the position of the *first* declaration of its name, never to an
/// intermediate occurrence.
pub proof fn lemma_diagnostic_anchors_first_declaration(entries: Seq<Option<Ident>>, r: int)
    requires
        0 <= r < scope_diagnostics(entries).len(),
    ensures
        exists|f: int|
            #[trigger] first_declaration(entries, f, scope_diagnostics(entries)[r].name)
                && scope_diagnostics(entries)[r].related == entries[f]->0.pos,
{
    lemma_reports_upto_anchored(entries, entries.len() as int, r);
    assert(scope_diagnostics(entries) == reports_upto(entries, entries.len() as int));
}

/// If some entry declares `name`, a first declaration of `name` exists.
proof fn lemma_first_declaration_exists(entries: Seq<Option<Ident>>, j: int, name: u64)
    requires
        declares(entries, j, name),
    ensures
        exists|f: int| 0 <= f <= j && #[trigger] first_declaration(entries, f, name),
    decreases j,
{
    if exists|k: int| 0 <= k < j && #[trigger] declares(entries, k, name) {
        let k = choose|k: int| 0 <= k < j && #[trigger] declares(entries, k, name);
        lemma_first_declaration_exists(entries, k, name);
    } else {
        assert(first_declaration(entries, j, name));
    }
}

/// The prefix form of [`lemma_diagnostic_anchors_first_declaration`].
proof fn lemma_reports_upto_anchored(entries: Seq<Option<Ident>>, i: int, r: int)
    requires
        0 <= i <= entries.len(),
        0 <= r < reports_upto(entries, i).len(),
    ensures
        exists|f: int|
            #[trigger] first_declaration(entries, f, reports_upto(entries, i)[r].name)
                && reports_upto(entries, i)[r].related == entries[f]->0.pos,
    decreases i,
{
    if i <= 0 {
        assert(false);
    } else if r < reports_upto(entries, i - 1).len() {
        lemma_reports_upto_anchored(entries, i - 1, r);
        assert(reports_upto(entries, i)[r] == reports_upto(entries, i - 1)[r]);
        let f = choose|f: int|
            #[trigger] first_declaration(entries, f, reports_upto(entries, i - 1)[r].name)
                && reports_upto(entries, i - 1)[r].related == entries[f]->0.pos;
        assert(first_declaration(entries, f, reports_upto(entries, i)[r].name)
            && reports_upto(entries, i)[r].related == entries[f]->0.pos);
    } else {
        match entries[i - 1] {
            Some(id) => {
                assert(reports_upto(entries, i) == reports_upto(entries, i - 1) + scope_report(
                    scope_upto(entries, i - 1),
                    id,
                ));
                assert(scope_upto(entries, i - 1).contains_key(id.name));
                assert(declares(entries, i - 1, id.name));
                lemma_scope_upto_first_seen(entries, i - 1);
                let j = choose|j: int| 0 <= j < i - 1 && #[trigger] declares(entries, j, id.name);
                lemma_first_declaration_exists(entries, j, id.name);
                let f = choose|f: int|
                    0 <= f <= j && #[trigger] first_declaration(entries, f, id.name);
                assert(scope_upto(entries, i - 1)[id.name] == entries[f]->0.pos);
                assert(reports_upto(entries, i)[r] == Diagnostic::spec_duplicate(
                    id.name,
                    id.pos,
                    scope_upto(entries, i - 1)[id.name],
                ));
                assert(first_declaration(entries, f, reports_upto(entries, i)[r].name)
                    && reports_upto(entries, i)[r].related == entries[f]->0.pos);
            },
            None => {
                assert(reports_upto(entries, i) =~= reports_upto(entries, i - 1));
                assert(false);
            },
        }
    }
}

/// Exemption: an entry that contributes no identifier neither raises nor
/// anchors a diagnostic — the scope reports exactly as if the entry were
/// absent.  This is what makes forward declarations (an incomplete type, a
/// protected-type body) and the overloadable subprogram declarations inert
/// in their scope.
pub proof fn lemma_exempt_entry_inert(entries: Seq<Option<Ident>>, j: int)
    requires
        0 <= j < entries.len(),
        entries[j] is None,
    ensures
        scope_diagnostics(entries) == scope_diagnostics(entries.remove(j)),
{
    entries.remove_ensures(j);
    lemma_inert_suffix(entries, j, entries.len() as int);
}

/// Prefix part of the inertness proof: before the exempt entry is reached,
/// both scopes evolve identically.
proof fn lemma_inert_prefix(entries: Seq<Option<Ident>>, j: int, i: int)
    requires
        0 <= j < entries.len(),
        entries[j] is None,
        0 <= i <= j,
    ensures
        scope_upto(entries, i) == scope_upto(entries.remove(j), i),
        reports_upto(entries, i) == reports_upto(entries.remove(j), i),
    decreases i,
{
    entries.remove_ensures(j);
    if i > 0 {
        lemma_inert_prefix(entries, j, i - 1);
        assert(entries.remove(j)[i - 1] == entries[i - 1]);
    }
}

/// Suffix part of the inertness proof: past the exempt entry, the scope
/// with the entry tracks the scope without it, one index behind.
proof fn lemma_inert_suffix(entries: Seq<Option<Ident>>, j: int, i: int)
    requires
        0 <= j < entries.len(),
        entries[j] is None,
        j < i <= entries.len(),
    ensures
        scope_upto(entries, i) == scope_upto(entries.remove(j), i - 1),
        reports_upto(entries, i) == reports_upto(entries.remove(j), i - 1),
    decreases i,
{
    entries.remove_ensures(j);
    if i == j + 1 {
        lemma_inert_prefix(entries, j, j);
        assert(reports_upto(entries, i) =~= reports_upto(entries, j));
    } else {
        lemma_inert_suffix(entries, j, i - 1);
        assert(entries.remove(j)[i - 2] == entries[i - 1]);
    }
}

/// One flat scope: a fresh map per check invocation, keyed by interned
/// name, holding the position of the first declaration of each name.
pub struct Scope {
    map: HashMap<u64, Position>,
}

impl View for Scope {
    type V = Map<u64, Position>;

    closed spec fn view(&self) -> Map<u64, Position> {
        self.map@
    }
}

impl Scope {
    /// A fresh scope with no names bound.
    pub fn new() -> (s: Scope)
        ensures
            s@ == Map::<u64, Position>::empty(),
    {
        Scope { map: HashMap::new() }
    }

    /// Checks one contributing identifier against this scope.  If its name
    /// is already bound, appends exactly one duplicate diagnostic, anchored
    /// at the first-seen position, and leaves the scope unchanged;
    /// otherwise binds the name to its position and appends nothing.
    pub fn check_unique(&mut self, ident: &Ident, diagnostics: &mut Vec<Diagnostic>)
        ensures
            final(self)@ == scope_step(old(self)@, *ident),
            final(diagnostics)@ == old(diagnostics)@ + scope_report(old(self)@, *ident),
    {
        match self.map.get(&ident.name) {
            Some(prev) => {
                let d = Diagnostic::duplicate(ident.name, ident.pos, *prev);
                diagnostics.push(d);
                proof {
                    assert(diagnostics@ =~= old(diagnostics)@ + scope_report(old(self)@, *ident));
                }
            },
            None => {
                self.map.insert(ident.name, ident.pos);
                proof {
                    assert(diagnostics@ =~= old(diagnostics)@ + scope_report(old(self)@, *ident));
                }
            },
        }
    }
}

} // verus!
