//! Hiding events by their target: a list of glob patterns and the matcher
//! compiled from it.

use crate::glob::{
    builder_add, builder_patterns, error_message, glob_matches, glob_parses, set_builds,
    set_is_match, set_patterns,
};
use globset::{Glob, GlobSet, GlobSetBuilder};
use vstd::prelude::*;

verus! {

/// Whether a pattern is taken into the matcher: it is a well-formed glob, and
/// a matcher can be compiled from it.
pub open spec fn accepted(pattern: Seq<char>) -> bool {
    glob_parses(pattern) && set_builds(seq![pattern])
}

/// The test that a pattern is taken into the matcher, as a predicate on
/// patterns.
pub open spec fn accepting() -> spec_fn(Seq<char>) -> bool {
    |pattern: Seq<char>| accepted(pattern)
}

/// The globs that a filter over `patterns` matches against: the accepted
/// ones, in their order. A pattern that is not accepted is left out and takes
/// nothing from the others.
pub open spec fn compiled(patterns: Seq<Seq<char>>) -> Seq<Seq<char>> {
    patterns.filter(accepting())
}

/// Whether at least one of `globs` matches `target`.
pub open spec fn matches_any(globs: Seq<Seq<char>>, target: Seq<char>) -> bool {
    exists|i: int| 0 <= i < globs.len() && glob_matches(#[trigger] globs[i], target)
}

/// Whether a filter over `patterns` hides events of `target`.
pub open spec fn excluded_by(patterns: Seq<Seq<char>>, target: Seq<char>) -> bool {
    matches_any(compiled(patterns), target)
}

/// Why a pattern was left out of the matcher.
#[derive(Clone, Copy, Debug, PartialEq, Eq, Structural)]
pub enum Fault {
    /// The pattern is not a well-formed glob.
    Malformed,
    /// The pattern is a well-formed glob, but no matcher could be compiled
    /// from it, as happens with one that is far too long.
    Uncompilable,
}

/// A pattern of the list that was left out of the matcher.
#[derive(Clone, Debug, PartialEq, Eq)]
pub struct Rejected {
    /// Where the pattern stands in the list.
    pub index: usize,
    /// The pattern as it was entered.
    pub pattern: String,
    /// Why it was left out.
    pub fault: Fault,
    /// What the parser or the compiler objected to, for display.
    pub reason: String,
}

/// What compiling a pattern list had to leave out. No finding stops the
/// filter from working: every other pattern still applies.
#[derive(Clone, Debug, PartialEq, Eq)]
pub struct CompileReport {
    /// The patterns that were left out, by rising position in the list.
    pub rejected: Vec<Rejected>,
}

impl CompileReport {
    /// Whether this is the report that compiling `patterns` owes: one entry
    /// for each pattern that is not accepted and no other, in the order of the
    /// list, each with the pattern and the kind of its fault.
    pub open spec fn describes(self, patterns: Seq<Seq<char>>) -> bool {
        &&& forall|k: int|
            0 <= k < self.rejected.len() ==> {
                let entry = #[trigger] self.rejected[k];
                &&& entry.index < patterns.len()
                &&& !accepted(patterns[entry.index as int])
                &&& entry.pattern@ == patterns[entry.index as int]
                &&& entry.fault is Malformed <==> !glob_parses(patterns[entry.index as int])
            }
        &&& forall|j: int, k: int|
            0 <= j < k < self.rejected.len() ==> (#[trigger] self.rejected[j]).index < (
            #[trigger] self.rejected[k]).index
        &&& forall|i: int|
            0 <= i < patterns.len() && !accepted(#[trigger] patterns[i]) ==> exists|k: int|
                0 <= k < self.rejected.len() && (#[trigger] self.rejected[k]).index == i
    }

    /// Whether every pattern was taken into the matcher.
    pub fn is_clean(&self) -> (clean: bool)
        ensures
            clean == (self.rejected.len() == 0),
    {
        self.rejected.len() == 0
    }
}

/// Whether `sets` holds one set for each of `globs`, in their order, each
/// built from that glob alone.
spec fn one_set_each(sets: Seq<GlobSet>, globs: Seq<Seq<char>>) -> bool {
    &&& sets.len() == globs.len()
    &&& forall|k: int| 0 <= k < sets.len() ==> set_patterns(#[trigger] sets[k]) == seq![globs[k]]
}

/// Compiles one pattern into a set of its own, or says why it is left out.
fn compile_one(pattern: &str) -> (outcome: Result<GlobSet, (Fault, String)>)
    ensures
        outcome is Ok <==> accepted(pattern@),
        outcome matches Ok(set) ==> set_patterns(set) == seq![pattern@],
        outcome matches Err(refusal) ==> (refusal.0 is Malformed <==> !glob_parses(pattern@)),
{
    match Glob::new(pattern) {
        Ok(glob) => {
            let mut builder = GlobSetBuilder::new();
            builder_add(&mut builder, glob);
            assert(builder_patterns(builder) =~= seq![pattern@]);
            match builder.build() {
                Ok(set) => Ok(set),
                Err(error) => Err((Fault::Uncompilable, error_message(&error))),
            }
        },
        Err(error) => Err((Fault::Malformed, error_message(&error))),
    }
}

/// The matcher of a filter.
#[derive(Debug)]
enum Matcher {
    /// The pattern list changed since the last compilation.
    Stale,
    /// Compiled from the current list: one set for each accepted pattern.
    Ready(Vec<GlobSet>),
}

/// The patterns that hide events by target, with the text being typed for the
/// next one. A pattern describes what to hide: an event is excluded as soon as
/// one pattern matches its target.
///
/// The matcher is compiled from the list on the first query after a change, so
/// no query is ever answered from an outdated list.
#[derive(Debug)]
pub struct TargetFilter {
    input: String,
    patterns: Vec<String>,
    matcher: Matcher,
}

impl TargetFilter {
    #[verifier::type_invariant]
    spec fn matcher_is_current(self) -> bool {
        match self.matcher {
            Matcher::Stale => true,
            Matcher::Ready(sets) => one_set_each(sets@, compiled(self.patterns.deep_view())),
        }
    }

    /// The pattern list, as entered.
    pub closed spec fn pattern_texts(self) -> Seq<Seq<char>> {
        self.patterns.deep_view()
    }

    /// The text typed so far for the next pattern.
    pub closed spec fn input_text(self) -> Seq<char> {
        self.input@
    }

    /// Whether the list changed since the matcher was last compiled.
    pub closed spec fn is_stale(self) -> bool {
        self.matcher is Stale
    }

    /// Whether this filter hides events of `target`.
    pub open spec fn excludes(self, target: Seq<char>) -> bool {
        excluded_by(self.pattern_texts(), target)
    }

    /// A filter without patterns, which hides nothing. Its matcher is not
    /// compiled yet: the first query does that.
    pub fn new() -> (filter: TargetFilter)
        ensures
            filter.pattern_texts() == Seq::<Seq<char>>::empty(),
            filter.input_text() == Seq::<char>::empty(),
            filter.is_stale(),
            forall|target: Seq<char>| !filter.excludes(target),
    {
        let filter = TargetFilter { input: String::new(), patterns: Vec::new(), matcher: Matcher::Stale };
        proof {
            assert(filter.patterns.deep_view() =~= Seq::<Seq<char>>::empty());
            assert forall|target: Seq<char>| !filter.excludes(target) by {
                law_no_pattern_hides_nothing(target);
            }
        }
        filter
    }

    /// The pattern list, as entered.
    pub fn patterns(&self) -> (patterns: &Vec<String>)
        ensures
            patterns.deep_view() == self.pattern_texts(),
    {
        &self.patterns
    }

    /// The text typed so far for the next pattern.
    pub fn input(&self) -> (input: &String)
        ensures
            input@ == self.input_text(),
    {
        &self.input
    }

    /// Replaces the text typed for the next pattern. The list is untouched.
    pub fn set_input(&mut self, input: String)
        ensures
            final(self).input_text() == input@,
            final(self).pattern_texts() == old(self).pattern_texts(),
            final(self).is_stale() == old(self).is_stale(),
    {
        proof {
            use_type_invariant(&*self);
        }
        self.input = input;
    }

    /// Whether the next query will compile the list anew.
    pub fn stale(&self) -> (stale: bool)
        ensures
            stale == self.is_stale(),
    {
        match &self.matcher {
            Matcher::Stale => true,
            _ => false,
        }
    }

    /// Whether a filter would take `pattern` into its matcher, with the
    /// objection to it where it would not.
    pub fn validate(pattern: &str) -> (objection: Option<String>)
        ensures
            objection is None <==> accepted(pattern@),
    {
        match compile_one(pattern) {
            Ok(_) => None,
            Err(refusal) => Some(refusal.1),
        }
    }

    /// Marks the matcher as outdated and moves the list out, leaving an empty
    /// one in its place.
    fn take_patterns(&mut self) -> (patterns: Vec<String>)
        ensures
            patterns == old(self).patterns,
            final(self).patterns@ == Seq::<String>::empty(),
            final(self).input == old(self).input,
            final(self).matcher is Stale,
    {
        self.matcher = Matcher::Stale;
        let mut patterns = Vec::new();
        std::mem::swap(&mut self.patterns, &mut patterns);
        patterns
    }

    /// Appends `pattern` to the list, well formed or not.
    pub fn add_pattern(&mut self, pattern: String)
        ensures
            final(self).pattern_texts() == old(self).pattern_texts().push(pattern@),
            final(self).input_text() == old(self).input_text(),
            final(self).is_stale(),
    {
        let mut patterns = self.take_patterns();
        patterns.push(pattern);
        proof {
            assert(patterns.deep_view() =~= old(self).patterns.deep_view().push(pattern@));
        }
        self.patterns = patterns;
    }

    /// Takes the pattern at `index` out of the list and returns it. An index
    /// past the end changes nothing.
    pub fn remove_pattern(&mut self, index: usize) -> (removed: Option<String>)
        ensures
            final(self).input_text() == old(self).input_text(),
            index < old(self).pattern_texts().len() ==> {
                &&& removed matches Some(pattern)
                &&& pattern@ == old(self).pattern_texts()[index as int]
                &&& final(self).pattern_texts() == old(self).pattern_texts().remove(index as int)
                &&& final(self).is_stale()
            },
            index >= old(self).pattern_texts().len() ==> {
                &&& removed is None
                &&& final(self).pattern_texts() == old(self).pattern_texts()
                &&& final(self).is_stale() == old(self).is_stale()
            },
    {
        proof {
            use_type_invariant(&*self);
        }
        if index < self.patterns.len() {
            let mut patterns = self.take_patterns();
            let pattern = patterns.remove(index);
            proof {
                assert(patterns.deep_view() =~= old(self).patterns.deep_view().remove(index as int));
            }
            self.patterns = patterns;
            Some(pattern)
        } else {
            None
        }
    }

    /// Puts `pattern` in the place of the one at `index` and returns the one
    /// it replaces. An index past the end changes nothing.
    pub fn replace_pattern(&mut self, index: usize, pattern: String) -> (replaced: Option<String>)
        ensures
            final(self).input_text() == old(self).input_text(),
            index < old(self).pattern_texts().len() ==> {
                &&& replaced matches Some(previous)
                &&& previous@ == old(self).pattern_texts()[index as int]
                &&& final(self).pattern_texts() == old(self).pattern_texts().update(
                    index as int,
                    pattern@,
                )
                &&& final(self).is_stale()
            },
            index >= old(self).pattern_texts().len() ==> {
                &&& replaced is None
                &&& final(self).pattern_texts() == old(self).pattern_texts()
                &&& final(self).is_stale() == old(self).is_stale()
            },
    {
        proof {
            use_type_invariant(&*self);
        }
        if index < self.patterns.len() {
            let mut patterns = self.take_patterns();
            let previous = patterns[index].clone();
            patterns.set(index, pattern);
            proof {
                assert(patterns.deep_view() =~= old(self).patterns.deep_view().update(
                    index as int,
                    pattern@,
                ));
            }
            self.patterns = patterns;
            Some(previous)
        } else {
            None
        }
    }

    /// Empties the list: nothing is hidden any more.
    pub fn clear(&mut self)
        ensures
            final(self).pattern_texts() == Seq::<Seq<char>>::empty(),
            final(self).input_text() == old(self).input_text(),
            final(self).is_stale(),
    {
        let _ = self.take_patterns();
        proof {
            assert(self.patterns.deep_view() =~= Seq::<Seq<char>>::empty());
        }
    }

    /// Compiles the matcher from the current list and reports what had to be
    /// left out. A pattern that is malformed, or that no matcher can be
    /// compiled from, is skipped; every other pattern still applies.
    pub fn compile(&mut self) -> (report: CompileReport)
        ensures
            final(self).pattern_texts() == old(self).pattern_texts(),
            final(self).input_text() == old(self).input_text(),
            !final(self).is_stale(),
            report.describes(old(self).pattern_texts()),
    {
        let ghost texts = self.patterns.deep_view();
        let mut sets: Vec<GlobSet> = Vec::new();
        let mut rejected: Vec<Rejected> = Vec::new();
        let count = self.patterns.len();
        let mut i: usize = 0;
        proof {
            reveal(Seq::filter);
            assert(texts.take(0) =~= Seq::<Seq<char>>::empty());
        }
        while i < count
            invariant
                i <= count,
                count == self.patterns.len(),
                texts == self.patterns.deep_view(),
                one_set_each(sets@, compiled(texts.take(i as int))),
                forall|k: int|
                    0 <= k < rejected.len() ==> {
                        let entry = #[trigger] rejected[k];
                        &&& entry.index < i
                        &&& !accepted(texts[entry.index as int])
                        &&& entry.pattern@ == texts[entry.index as int]
                        &&& entry.fault is Malformed <==> !glob_parses(texts[entry.index as int])
                    },
                forall|j: int, k: int|
                    0 <= j < k < rejected.len() ==> (#[trigger] rejected[j]).index < (
                    #[trigger] rejected[k]).index,
                forall|p: int|
                    0 <= p < i && !accepted(#[trigger] texts[p]) ==> exists|k: int|
                        0 <= k < rejected.len() && (#[trigger] rejected[k]).index == p,
            decreases count - i,
        {
            let pattern = &self.patterns[i];
            let ghost before = rejected@;
            let ghost sets_before = sets@;
            proof {
                assert(texts[i as int] == pattern@);
                lemma_compiled_push(texts.take(i as int), texts[i as int]);
                assert(texts.take(i as int + 1) =~= texts.take(i as int).push(texts[i as int]));
            }
            match compile_one(pattern.as_str()) {
                Ok(set) => {
                    sets.push(set);
                    proof {
                        let globs = compiled(texts.take(i as int + 1));
                        assert forall|k: int| 0 <= k < sets@.len() implies set_patterns(
                            #[trigger] sets@[k],
                        ) == seq![globs[k]] by {
                            if k < sets_before.len() {
                                assert(sets@[k] == sets_before[k]);
                            }
                        }
                    }
                },
                Err(refusal) => {
                    let entry = Rejected {
                        index: i,
                        pattern: pattern.clone(),
                        fault: refusal.0,
                        reason: refusal.1,
                    };
                    rejected.push(entry);
                    proof {
                        assert(rejected@ == before.push(entry));
                        assert forall|p: int|
                            0 <= p < i + 1 && !accepted(#[trigger] texts[p]) implies exists|k: int|
                            0 <= k < rejected.len() && (#[trigger] rejected[k]).index == p by {
                            if p < i {
                                let k = choose|k: int|
                                    0 <= k < before.len() && (#[trigger] before[k]).index == p;
                                assert(rejected[k].index == p);
                            } else {
                                assert(rejected[before.len() as int].index == p);
                            }
                        }
                    }
                },
            }
            i += 1;
        }
        proof {
            assert(texts.take(count as int) =~= texts);
        }
        self.matcher = Matcher::Ready(sets);
        CompileReport { rejected }
    }

    /// Whether events of `target` are hidden: true exactly when at least one
    /// compiled pattern matches it. The matcher is compiled first where the
    /// list changed since the last query.
    pub fn is_excluded(&mut self, target: &str) -> (excluded: bool)
        ensures
            excluded == old(self).excludes(target@),
            final(self).pattern_texts() == old(self).pattern_texts(),
            final(self).input_text() == old(self).input_text(),
            !final(self).is_stale(),
    {
        if self.stale() {
            let _ = self.compile();
        }
        proof {
            use_type_invariant(&*self);
        }
        let ghost globs = compiled(self.patterns.deep_view());
        match &self.matcher {
            Matcher::Ready(sets) => {
                let mut excluded = false;
                let mut i: usize = 0;
                while i < sets.len() && !excluded
                    invariant
                        i <= sets.len(),
                        one_set_each(sets@, globs),
                        excluded ==> matches_any(globs, target@),
                        !excluded ==> forall|k: int|
                            0 <= k < i ==> !glob_matches(#[trigger] globs[k], target@),
                    decreases sets.len() - i,
                {
                    excluded = set_is_match(&sets[i], target);
                    proof {
                        let alone = set_patterns(sets@[i as int]);
                        assert(alone == seq![globs[i as int]]);
                        assert(alone[0] == globs[i as int]);
                    }
                    i += 1;
                }
                excluded
            },
            Matcher::Stale => false,
        }
    }
}

impl Clone for TargetFilter {
    /// A filter over the same list and with the same input. The copy compiles
    /// its own matcher on its first query.
    fn clone(&self) -> (copy: TargetFilter)
        ensures
            copy.pattern_texts() == self.pattern_texts(),
            copy.input_text() == self.input_text(),
            copy.is_stale(),
    {
        let patterns = self.patterns.clone();
        proof {
            assert(patterns.deep_view() =~= self.patterns.deep_view());
        }
        TargetFilter { input: self.input.clone(), patterns, matcher: Matcher::Stale }
    }
}

impl Default for TargetFilter {
    /// A filter without patterns, which hides nothing. Its matcher is not
    /// compiled yet: the first query does that.
    fn default() -> (filter: TargetFilter)
        ensures
            filter.pattern_texts() == Seq::<Seq<char>>::empty(),
            filter.input_text() == Seq::<char>::empty(),
            filter.is_stale(),
    {
        TargetFilter::new()
    }
}

/// The compiled globs of a list with one more pattern at its end are those of
/// the list, followed by the new pattern where it is accepted.
pub proof fn lemma_compiled_push(patterns: Seq<Seq<char>>, pattern: Seq<char>)
    ensures
        compiled(patterns.push(pattern)) == if accepted(pattern) {
            compiled(patterns).push(pattern)
        } else {
            compiled(patterns)
        },
{
    reveal(Seq::filter);
    assert(patterns.push(pattern).drop_last() =~= patterns);
}

/// A filter without patterns hides no target, the empty one included.
pub proof fn law_no_pattern_hides_nothing(target: Seq<char>)
    ensures
        !excluded_by(Seq::empty(), target),
{
    reveal(Seq::filter);
    assert(compiled(Seq::empty()) =~= Seq::<Seq<char>>::empty());
}

/// A target is hidden exactly when one of the compiled patterns matches it.
pub proof fn law_hidden_iff_some_compiled_pattern_matches(
    patterns: Seq<Seq<char>>,
    target: Seq<char>,
)
    ensures
        excluded_by(patterns, target) <==> exists|i: int|
            0 <= i < compiled(patterns).len() && glob_matches(
                #[trigger] compiled(patterns)[i],
                target,
            ),
{
}

/// A target is hidden exactly when the list holds an accepted pattern that
/// matches it, wherever in the list and whatever else the list holds.
pub proof fn law_hidden_iff_an_accepted_pattern_matches(
    patterns: Seq<Seq<char>>,
    target: Seq<char>,
)
    ensures
        excluded_by(patterns, target) <==> exists|i: int|
            0 <= i < patterns.len() && accepted(#[trigger] patterns[i]) && glob_matches(
                patterns[i],
                target,
            ),
{
    let accepts = accepting();
    let globs = compiled(patterns);
    if excluded_by(patterns, target) {
        let k = choose|k: int| 0 <= k < globs.len() && glob_matches(#[trigger] globs[k], target);
        let hit = globs[k];
        assert(globs.contains(hit));
        patterns.lemma_filter_contains_rev(accepts, hit);
        patterns.lemma_filter_pred(accepts, k);
        let i = choose|i: int| 0 <= i < patterns.len() && patterns[i] == hit;
        assert(accepted(patterns[i]) && glob_matches(patterns[i], target));
    }
    if exists|i: int|
        0 <= i < patterns.len() && accepted(#[trigger] patterns[i]) && glob_matches(
            patterns[i],
            target,
        ) {
        let i = choose|i: int|
            0 <= i < patterns.len() && accepted(#[trigger] patterns[i]) && glob_matches(
                patterns[i],
                target,
            );
        patterns.lemma_filter_contains(accepts, i);
        let k = choose|k: int| 0 <= k < globs.len() && globs[k] == patterns[i];
        assert(glob_matches(globs[k], target));
    }
}

/// Adding a pattern can only hide more: whatever was hidden before is hidden
/// after, whether or not the new pattern is accepted.
pub proof fn law_adding_a_pattern_hides_no_less(
    patterns: Seq<Seq<char>>,
    pattern: Seq<char>,
    target: Seq<char>,
)
    ensures
        excluded_by(patterns, target) ==> excluded_by(patterns.push(pattern), target),
{
    let longer = patterns.push(pattern);
    law_hidden_iff_an_accepted_pattern_matches(patterns, target);
    law_hidden_iff_an_accepted_pattern_matches(longer, target);
    if excluded_by(patterns, target) {
        let i = choose|i: int|
            0 <= i < patterns.len() && accepted(#[trigger] patterns[i]) && glob_matches(
                patterns[i],
                target,
            );
        assert(longer[i] == patterns[i]);
    }
}

/// Removing a pattern can only hide less: whatever is hidden after was hidden
/// before.
pub proof fn law_removing_a_pattern_hides_no_more(
    patterns: Seq<Seq<char>>,
    index: int,
    target: Seq<char>,
)
    requires
        0 <= index < patterns.len(),
    ensures
        excluded_by(patterns.remove(index), target) ==> excluded_by(patterns, target),
{
    let shorter = patterns.remove(index);
    law_hidden_iff_an_accepted_pattern_matches(patterns, target);
    law_hidden_iff_an_accepted_pattern_matches(shorter, target);
    if excluded_by(shorter, target) {
        let at = choose|at: int|
            0 <= at < shorter.len() && accepted(#[trigger] shorter[at]) && glob_matches(
                shorter[at],
                target,
            );
        let origin = if at < index {
            at
        } else {
            at + 1
        };
        assert(patterns[origin] == shorter[at]);
    }
}

} // verus!
