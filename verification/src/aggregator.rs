//! The aggregator: which collectors answer a scrape, in which order they
//! run, and how their fragments are joined into one body.
//!
//! The collectors run one after the other, in one fixed order that does not
//! depend on the order in which they were enabled.

use vstd::prelude::*;
use vstd::string::*;
use crate::text::{
    is_block, is_subsequence, lemma_block_concat, lemma_lines_concat, lemma_subsequence_concat,
    lemma_subsequence_empty, lemma_subsequence_refl, lines,
};

verus! {

/// The collectors.
#[derive(Clone, Copy, Debug, PartialEq, Eq, PartialOrd, Ord, Hash, Structural)]
pub enum Exporter {
    Hddtemp,
    LmSensors,
    ProcMeminfo,
    ProcNetdev,
    ProcStat,
    Nvidia,
    NzxtAio,
    AmdRadeontop,
}

/// The order in which the collectors run and in which their fragments stand
/// in the body.
pub open spec fn collection_order() -> Seq<Exporter> {
    seq![
        Exporter::NzxtAio,
        Exporter::LmSensors,
        Exporter::Hddtemp,
        Exporter::Nvidia,
        Exporter::ProcStat,
        Exporter::ProcNetdev,
        Exporter::ProcMeminfo,
        Exporter::AmdRadeontop,
    ]
}

/// The place of a collector in [`collection_order`].
pub open spec fn rank(e: Exporter) -> int {
    match e {
        Exporter::NzxtAio => 0,
        Exporter::LmSensors => 1,
        Exporter::Hddtemp => 2,
        Exporter::Nvidia => 3,
        Exporter::ProcStat => 4,
        Exporter::ProcNetdev => 5,
        Exporter::ProcMeminfo => 6,
        Exporter::AmdRadeontop => 7,
    }
}

/// The collectors that are enabled where none was asked for.
pub open spec fn default_order() -> Seq<Exporter> {
    seq![
        Exporter::Hddtemp,
        Exporter::LmSensors,
        Exporter::ProcMeminfo,
        Exporter::ProcNetdev,
        Exporter::ProcStat,
        Exporter::AmdRadeontop,
    ]
}

/// The enabled collectors as a set.
pub open spec fn enabled_set(enabled: Seq<Exporter>) -> Set<Exporter> {
    Set::new(|e: Exporter| enabled.contains(e))
}

/// What a collector adds to the body: its fragment where it is enabled,
/// nothing where it is not.
pub open spec fn contribution(
    enabled: Set<Exporter>,
    fragments: Map<Exporter, Seq<char>>,
    e: Exporter,
) -> Seq<char> {
    if enabled.contains(e) {
        fragments[e]
    } else {
        Seq::empty()
    }
}

/// The body after the first `n` collectors of the order had their turn.
pub open spec fn response_upto(
    enabled: Set<Exporter>,
    fragments: Map<Exporter, Seq<char>>,
    n: nat,
) -> Seq<char>
    decreases n,
{
    if n == 0 {
        Seq::empty()
    } else {
        response_upto(enabled, fragments, (n - 1) as nat) + contribution(
            enabled,
            fragments,
            collection_order()[n - 1],
        )
    }
}

/// The body of a response: the fragments of the enabled collectors, joined
/// in the collection order.
pub open spec fn response(enabled: Set<Exporter>, fragments: Map<Exporter, Seq<char>>) -> Seq<
    char,
> {
    response_upto(enabled, fragments, 8)
}

/// The enabled collectors among the first `n` of the order, in that order.
pub open spec fn plan_upto(enabled: Set<Exporter>, n: nat) -> Seq<Exporter>
    decreases n,
{
    if n == 0 {
        Seq::empty()
    } else {
        let e = collection_order()[n - 1];
        if enabled.contains(e) {
            plan_upto(enabled, (n - 1) as nat).push(e)
        } else {
            plan_upto(enabled, (n - 1) as nat)
        }
    }
}

/// The collectors to run for a scrape, in the order in which to run them.
pub open spec fn plan(enabled: Set<Exporter>) -> Seq<Exporter> {
    plan_upto(enabled, 8)
}

/// The collector at a place of the collection order.
fn exporter_at(place: usize) -> (e: Exporter)
    requires
        place < 8,
    ensures
        e == collection_order()[place as int],
        rank(e) == place,
{
    if place == 0 {
        Exporter::NzxtAio
    } else if place == 1 {
        Exporter::LmSensors
    } else if place == 2 {
        Exporter::Hddtemp
    } else if place == 3 {
        Exporter::Nvidia
    } else if place == 4 {
        Exporter::ProcStat
    } else if place == 5 {
        Exporter::ProcNetdev
    } else if place == 6 {
        Exporter::ProcMeminfo
    } else {
        Exporter::AmdRadeontop
    }
}

/// The place of a collector in the collection order.
fn place_of(e: Exporter) -> (place: usize)
    ensures
        place == rank(e),
        place < 8,
        collection_order()[place as int] == e,
{
    match e {
        Exporter::NzxtAio => 0,
        Exporter::LmSensors => 1,
        Exporter::Hddtemp => 2,
        Exporter::Nvidia => 3,
        Exporter::ProcStat => 4,
        Exporter::ProcNetdev => 5,
        Exporter::ProcMeminfo => 6,
        Exporter::AmdRadeontop => 7,
    }
}

/// Whether a collector is among the enabled ones.
pub fn is_enabled(enabled: &Vec<Exporter>, e: Exporter) -> (r: bool)
    ensures
        r == enabled_set(enabled@).contains(e),
{
    let mut i: usize = 0;
    while i < enabled.len()
        invariant
            i <= enabled.len(),
            forall|k: int| 0 <= k < i ==> enabled@[k] != e,
        decreases enabled.len() - i,
    {
        if enabled[i] == e {
            return true;
        }
        i += 1;
    }
    false
}

/// The collectors that are enabled where none was asked for.
pub fn default_exporters() -> (out: Vec<Exporter>)
    ensures
        out@ == default_order(),
{
    let mut out: Vec<Exporter> = Vec::new();
    out.push(Exporter::Hddtemp);
    out.push(Exporter::LmSensors);
    out.push(Exporter::ProcMeminfo);
    out.push(Exporter::ProcNetdev);
    out.push(Exporter::ProcStat);
    out.push(Exporter::AmdRadeontop);
    assert(out@ =~= default_order());
    out
}

/// The enabled collectors: those asked for, or the default ones where none
/// was asked for.
pub fn enabled_exporters(requested: Vec<Exporter>) -> (out: Vec<Exporter>)
    ensures
        out@ == if requested@.len() == 0 {
            default_order()
        } else {
            requested@
        },
{
    if requested.len() == 0 {
        default_exporters()
    } else {
        requested
    }
}

/// The collectors to run for a scrape, in the order in which to run them.
pub fn collection_plan(enabled: &Vec<Exporter>) -> (out: Vec<Exporter>)
    ensures
        out@ == plan(enabled_set(enabled@)),
{
    let mut out: Vec<Exporter> = Vec::new();
    let mut place: usize = 0;
    while place < 8
        invariant
            place <= 8,
            out@ == plan_upto(enabled_set(enabled@), place as nat),
        decreases 8 - place,
    {
        let e = exporter_at(place);
        if is_enabled(enabled, e) {
            out.push(e);
        }
        place += 1;
    }
    out
}

/// The fragments that the collectors gave for one scrape, each a block of
/// whole lines. A collector that gave none has the empty fragment.
pub struct Fragments {
    texts: Vec<String>,
}

impl View for Fragments {
    type V = Map<Exporter, Seq<char>>;

    closed spec fn view(&self) -> Map<Exporter, Seq<char>> {
        Map::new(
            |e: Exporter| true,
            |e: Exporter|
                if rank(e) < self.texts@.len() {
                    self.texts@[rank(e)]@
                } else {
                    Seq::empty()
                },
        )
    }
}

impl Fragments {
    /// The invariant: there is a place for each collector, and what stands
    /// in it is a block of whole lines.
    pub closed spec fn wf(&self) -> bool {
        &&& self.texts@.len() == 8
        &&& forall|k: int| 0 <= k < 8 ==> is_block((#[trigger] self.texts@[k])@)
    }

    /// Every fragment of the table is a block of whole lines.
    pub proof fn lemma_blocks(&self)
        requires
            self.wf(),
        ensures
            forall|e: Exporter| is_block(#[trigger] self@[e]),
    {
        assert forall|e: Exporter| is_block(#[trigger] self@[e]) by {
            assert(0 <= rank(e) < 8);
            assert(is_block(self.texts@[rank(e)]@));
        }
    }

    /// No collector has given anything yet.
    pub fn new() -> (out: Fragments)
        ensures
            out.wf(),
            forall|e: Exporter| #[trigger] out@[e] == Seq::<char>::empty(),
    {
        let mut texts: Vec<String> = Vec::new();
        let mut i: usize = 0;
        while i < 8
            invariant
                i <= 8,
                texts@.len() == i,
                forall|k: int| 0 <= k < i ==> (#[trigger] texts@[k])@ == Seq::<char>::empty(),
            decreases 8 - i,
        {
            texts.push(String::new());
            i += 1;
        }
        Fragments { texts }
    }

    /// Records the fragment that a collector gave; the others keep theirs.
    /// A text that is no block of whole lines is no fragment: it is refused
    /// and the table stays as it was.
    pub fn set(&mut self, e: Exporter, text: String) -> (stored: bool)
        requires
            old(self).wf(),
        ensures
            final(self).wf(),
            stored == is_block(text@),
            stored ==> final(self)@ == old(self)@.insert(e, text@),
            !stored ==> final(self)@ == old(self)@,
    {
        let n: usize = text.as_str().unicode_len();
        if n > 0 && text.as_str().get_char(n - 1) != '\n' {
            return false;
        }
        let place = place_of(e);
        self.texts.set(place, text);
        proof {
            assert forall|k: int| 0 <= k < 8 implies is_block(
                (#[trigger] final(self).texts@[k])@,
            ) by {
                if k != place {
                    assert(final(self).texts@[k] == old(self).texts@[k]);
                }
            }
            assert forall|o: Exporter| #[trigger] final(self)@[o] == old(self)@.insert(e, text@)[o] by {
                if o != e {
                    assert(rank(o) != rank(e));
                }
            }
            assert(final(self)@ =~= old(self)@.insert(e, text@));
        }
        true
    }

    /// The fragment that a collector gave.
    pub fn get(&self, e: Exporter) -> (text: &String)
        requires
            self.wf(),
        ensures
            text@ == self@[e],
    {
        &self.texts[place_of(e)]
    }
}

/// Joins the fragments of the enabled collectors into the body of a
/// response, which is a block of whole lines again.
pub fn aggregate(enabled: &Vec<Exporter>, fragments: &Fragments) -> (body: String)
    requires
        fragments.wf(),
    ensures
        body@ == response(enabled_set(enabled@), fragments@),
        is_block(body@),
{
    let mut body = String::new();
    let mut place: usize = 0;
    while place < 8
        invariant
            place <= 8,
            fragments.wf(),
            body@ == response_upto(enabled_set(enabled@), fragments@, place as nat),
            is_block(body@),
        decreases 8 - place,
    {
        let e = exporter_at(place);
        if is_enabled(enabled, e) {
            proof {
                fragments.lemma_blocks();
                lemma_block_concat(body@, fragments@[e]);
            }
            body.append(fragments.get(e).as_str());
        } else {
            assert(body@ + Seq::<char>::empty() =~= body@);
        }
        place += 1;
    }
    body
}

/// The fragments of a list of collectors, joined in the order of the list.
pub open spec fn joined(order: Seq<Exporter>, fragments: Map<Exporter, Seq<char>>) -> Seq<char>
    decreases order.len(),
{
    if order.len() == 0 {
        Seq::empty()
    } else {
        joined(order.drop_last(), fragments) + fragments[order.last()]
    }
}

/// The body is what running the plan gives: the fragments of the collectors
/// of the plan, joined in the order in which the plan runs them.
pub proof fn lemma_response_follows_plan(
    enabled: Set<Exporter>,
    fragments: Map<Exporter, Seq<char>>,
)
    ensures
        response(enabled, fragments) == joined(plan(enabled), fragments),
{
    lemma_response_upto_follows_plan(enabled, fragments, 8);
}

proof fn lemma_response_upto_follows_plan(
    enabled: Set<Exporter>,
    fragments: Map<Exporter, Seq<char>>,
    n: nat,
)
    ensures
        response_upto(enabled, fragments, n) == joined(plan_upto(enabled, n), fragments),
    decreases n,
{
    if n > 0 {
        lemma_response_upto_follows_plan(enabled, fragments, (n - 1) as nat);
        let e = collection_order()[n - 1];
        let before = plan_upto(enabled, (n - 1) as nat);
        if enabled.contains(e) {
            assert(before.push(e).drop_last() =~= before);
        } else {
            assert(response_upto(enabled, fragments, n) =~= response_upto(
                enabled,
                fragments,
                (n - 1) as nat,
            ));
        }
    }
}

/// Concatenation order: with two collectors enabled, the body is the
/// fragment of the one that stands first in the collection order followed by
/// the fragment of the other, whatever else the table of fragments holds.
pub proof fn lemma_two_collectors(a: Exporter, b: Exporter, fragments: Map<Exporter, Seq<char>>)
    requires
        rank(a) < rank(b),
    ensures
        response(set![a, b], fragments) == fragments[a] + fragments[b],
{
    let enabled = set![a, b];
    reveal_with_fuel(response_upto, 9);
    let none = Seq::<char>::empty();
    assert forall|e: Exporter| e != a && e != b implies #[trigger] contribution(
        enabled,
        fragments,
        e,
    ) == none by {}
    assert(contribution(enabled, fragments, a) == fragments[a]);
    assert(contribution(enabled, fragments, b) == fragments[b]);
    assert(response(enabled, fragments) =~= fragments[a] + fragments[b]);
}

/// With one collector enabled, the body is that collector's fragment.
pub proof fn lemma_one_collector(a: Exporter, fragments: Map<Exporter, Seq<char>>)
    ensures
        response(set![a], fragments) == fragments[a],
{
    let enabled = set![a];
    reveal_with_fuel(response_upto, 9);
    assert forall|e: Exporter| e != a implies #[trigger] contribution(enabled, fragments, e)
        == Seq::<char>::empty() by {}
    assert(response(enabled, fragments) =~= fragments[a]);
}

/// Monotonic composition, character by character: the body for a set of
/// collectors is a subsequence of the body for every larger set.
pub proof fn lemma_response_monotonic(
    smaller: Set<Exporter>,
    larger: Set<Exporter>,
    fragments: Map<Exporter, Seq<char>>,
)
    requires
        smaller.subset_of(larger),
    ensures
        is_subsequence(response(smaller, fragments), response(larger, fragments)),
{
    lemma_response_upto_monotonic(smaller, larger, fragments, 8);
}

proof fn lemma_response_upto_monotonic(
    smaller: Set<Exporter>,
    larger: Set<Exporter>,
    fragments: Map<Exporter, Seq<char>>,
    n: nat,
)
    requires
        smaller.subset_of(larger),
    ensures
        is_subsequence(response_upto(smaller, fragments, n), response_upto(larger, fragments, n)),
    decreases n,
{
    if n == 0 {
        lemma_subsequence_empty(Seq::<char>::empty());
    } else {
        let e = collection_order()[n - 1];
        lemma_response_upto_monotonic(smaller, larger, fragments, (n - 1) as nat);
        if smaller.contains(e) {
            assert(larger.contains(e));
            lemma_subsequence_refl(contribution(larger, fragments, e));
        } else {
            lemma_subsequence_empty(contribution(larger, fragments, e));
        }
        lemma_subsequence_concat(
            response_upto(smaller, fragments, (n - 1) as nat),
            response_upto(larger, fragments, (n - 1) as nat),
            contribution(smaller, fragments, e),
            contribution(larger, fragments, e),
        );
    }
}

/// Whether the fragment of every enabled collector is a block of whole
/// lines.
pub open spec fn all_blocks(enabled: Set<Exporter>, fragments: Map<Exporter, Seq<char>>) -> bool {
    forall|e: Exporter| enabled.contains(e) ==> is_block(#[trigger] fragments[e])
}

/// Monotonic composition for a table of fragments: the lines of the body
/// for a set of collectors are a subsequence of the lines of the body for
/// every larger set.
pub proof fn lemma_aggregate_lines_monotonic(
    smaller: Set<Exporter>,
    larger: Set<Exporter>,
    fragments: Fragments,
)
    requires
        smaller.subset_of(larger),
        fragments.wf(),
    ensures
        is_subsequence(
            lines(response(smaller, fragments@)),
            lines(response(larger, fragments@)),
        ),
{
    fragments.lemma_blocks();
    lemma_response_lines_monotonic(smaller, larger, fragments@);
}

/// Monotonic composition, line by line, for any fragments: the lines of the
/// body for a set of collectors are a subsequence of the lines of the body
/// for every larger set whose fragments are blocks of whole lines.
pub proof fn lemma_response_lines_monotonic(
    smaller: Set<Exporter>,
    larger: Set<Exporter>,
    fragments: Map<Exporter, Seq<char>>,
)
    requires
        smaller.subset_of(larger),
        all_blocks(larger, fragments),
    ensures
        is_subsequence(lines(response(smaller, fragments)), lines(response(larger, fragments))),
{
    lemma_response_upto_lines(smaller, larger, fragments, 8);
}

proof fn lemma_response_upto_lines(
    smaller: Set<Exporter>,
    larger: Set<Exporter>,
    fragments: Map<Exporter, Seq<char>>,
    n: nat,
)
    requires
        smaller.subset_of(larger),
        all_blocks(larger, fragments),
    ensures
        is_block(response_upto(smaller, fragments, n)),
        is_block(response_upto(larger, fragments, n)),
        is_subsequence(
            lines(response_upto(smaller, fragments, n)),
            lines(response_upto(larger, fragments, n)),
        ),
    decreases n,
{
    if n == 0 {
        lemma_subsequence_empty(lines(Seq::<char>::empty()));
    } else {
        let e = collection_order()[n - 1];
        let before_s = response_upto(smaller, fragments, (n - 1) as nat);
        let before_l = response_upto(larger, fragments, (n - 1) as nat);
        let add_s = contribution(smaller, fragments, e);
        let add_l = contribution(larger, fragments, e);
        lemma_response_upto_lines(smaller, larger, fragments, (n - 1) as nat);
        if smaller.contains(e) {
            assert(larger.contains(e));
        }
        assert(is_block(add_s));
        assert(is_block(add_l));
        lemma_block_concat(before_s, add_s);
        lemma_block_concat(before_l, add_l);
        lemma_lines_concat(before_s, add_s);
        lemma_lines_concat(before_l, add_l);
        if smaller.contains(e) {
            assert(larger.contains(e));
            lemma_subsequence_refl(lines(add_l));
        } else {
            lemma_subsequence_empty(lines(add_l));
        }
        lemma_subsequence_concat(lines(before_s), lines(before_l), lines(add_s), lines(add_l));
    }
}

} // verus!
