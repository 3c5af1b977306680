//! Filtering and ordering of what a catalog gave.

use vstd::prelude::*;
use vstd::set_lib::{lemma_int_range, lemma_len_subset, set_int_range};

use crate::release::{GitHubRelease, ReleaseView};

verus! {

/// The record at `first` stands before the record at `second` in the normal order:
/// it was published earlier, or at the same instant and it came earlier in the
/// input.
pub open spec fn comes_before(input: Seq<ReleaseView>, first: int, second: int) -> bool {
    input[first].published_at.precedes(input[second].published_at) || (input[first].published_at
        == input[second].published_at && first < second)
}

/// `output` arranges the published records among the first `upto` of `input`, and
/// `origin` tells for each place of `output` which place of `input` it was taken
/// from: every place named holds a published record, the records stand in the
/// normal order, and no published record is left out.
pub open spec fn arranges(
    input: Seq<ReleaseView>,
    upto: int,
    output: Seq<ReleaseView>,
    origin: Seq<int>,
) -> bool {
    &&& origin.len() == output.len()
    &&& forall|i: int|
        0 <= i < output.len() ==> 0 <= #[trigger] origin[i] < upto && input[origin[i]].is_published()
            && output[i] == input[origin[i]]
    &&& forall|i: int, j: int|
        0 <= i < j < output.len() ==> comes_before(input, #[trigger] origin[i], #[trigger] origin[j])
    &&& forall|k: int|
        0 <= k < upto && (#[trigger] input[k]).is_published() ==> origin.contains(k)
}

/// `output` is `input` without its drafts and pre-releases, in ascending order of
/// publication, records of one instant in the order in which `input` had them.
pub open spec fn is_normalized(input: Seq<ReleaseView>, output: Seq<ReleaseView>) -> bool {
    exists|origin: Seq<int>| arranges(input, input.len() as int, output, origin)
}

/// No record stands before one that was published earlier.
pub open spec fn is_ascending(releases: Seq<ReleaseView>) -> bool {
    forall|i: int, j: int|
        0 <= i < j < releases.len() ==> (#[trigger] releases[i]).published_at.not_after(
            (#[trigger] releases[j]).published_at,
        )
}

/// Puts a record into a list that is in ascending order of publication: behind
/// every record that is not later than it, before every record that is later.
/// Returns the place it took.
fn insert_in_order(sorted: &mut Vec<GitHubRelease>, record: GitHubRelease) -> (place: usize)
    requires
        is_ascending(old(sorted).deep_view()),
    ensures
        place <= old(sorted).len(),
        final(sorted)@ == old(sorted)@.insert(place as int, record),
        final(sorted).deep_view() == old(sorted).deep_view().insert(place as int, record@),
        forall|i: int|
            0 <= i < place ==> (#[trigger] old(sorted).deep_view()[i]).published_at.not_after(
                record.published_at,
            ),
        forall|i: int|
            place <= i < old(sorted).len() ==> record.published_at.precedes(
                (#[trigger] old(sorted).deep_view()[i]).published_at,
            ),
        is_ascending(final(sorted).deep_view()),
{
    let ghost before = sorted.deep_view();
    let mut place: usize = sorted.len();
    while place > 0 && record.published_at.is_before(&sorted[place - 1].published_at)
        invariant
            place <= sorted.len(),
            sorted.deep_view() == before,
            forall|i: int|
                place <= i < sorted.len() ==> record.published_at.precedes(
                    (#[trigger] before[i]).published_at,
                ),
        decreases place,
    {
        place -= 1;
    }
    proof {
        assert forall|i: int| 0 <= i < place implies (#[trigger] before[i]).published_at.not_after(
            record.published_at,
        ) by {
            let last = before[place - 1];
            assert(!record.published_at.precedes(last.published_at));
            assert(before[i].published_at.not_after(last.published_at));
        }
    }
    sorted.insert(place, record);
    proof {
        let after = sorted.deep_view();
        assert(after =~= before.insert(place as int, record@));
        assert forall|i: int, j: int| 0 <= i < j < after.len() implies (#[trigger] after[i]).published_at.not_after(
            (#[trigger] after[j]).published_at,
        ) by {
            if i < place && j > place {
                assert(before[i].published_at.not_after(before[j - 1].published_at));
            } else if i < place && j == place {
                assert(before[i].published_at.not_after(record.published_at));
            } else if i == place {
                assert(record.published_at.precedes(before[j - 1].published_at));
            } else if i > place {
                assert(before[i - 1].published_at.not_after(before[j - 1].published_at));
            } else {
                assert(before[i].published_at.not_after(before[j].published_at));
            }
        }
    }
    place
}

/// An arrangement of the first `at` records stays one of the first `at + 1` when
/// the record at `at` is put in at the place that the normal order gives it.
proof fn lemma_arranges_with_one_more(
    input: Seq<ReleaseView>,
    at: int,
    output: Seq<ReleaseView>,
    origin: Seq<int>,
    place: int,
)
    requires
        arranges(input, at, output, origin),
        0 <= at < input.len(),
        input[at].is_published(),
        0 <= place <= output.len(),
        forall|i: int|
            0 <= i < place ==> (#[trigger] output[i]).published_at.not_after(input[at].published_at),
        forall|i: int|
            place <= i < output.len() ==> input[at].published_at.precedes(
                (#[trigger] output[i]).published_at,
            ),
    ensures
        arranges(input, at + 1, output.insert(place, input[at]), origin.insert(place, at)),
{
    let longer = output.insert(place, input[at]);
    let origin_of = origin.insert(place, at);
    assert forall|i: int| 0 <= i < longer.len() implies 0 <= #[trigger] origin_of[i] < at + 1
        && input[origin_of[i]].is_published() && longer[i] == input[origin_of[i]] by {
        if i < place {
            assert(origin_of[i] == origin[i]);
        } else if i > place {
            assert(origin_of[i] == origin[i - 1]);
        }
    }
    assert forall|i: int, j: int| 0 <= i < j < longer.len() implies comes_before(
        input,
        #[trigger] origin_of[i],
        #[trigger] origin_of[j],
    ) by {
        if j < place {
            assert(comes_before(input, origin[i], origin[j]));
        } else if j == place {
            assert(output[i].published_at.not_after(input[at].published_at));
            assert(output[i] == input[origin[i]]);
            assert(origin[i] < at);
        } else if i < place {
            assert(comes_before(input, origin[i], origin[j - 1]));
        } else if i == place {
            assert(input[at].published_at.precedes(output[j - 1].published_at));
            assert(output[j - 1] == input[origin[j - 1]]);
        } else {
            assert(comes_before(input, origin[i - 1], origin[j - 1]));
        }
    }
    assert forall|k: int| 0 <= k < at + 1 && (#[trigger] input[k]).is_published() implies origin_of.contains(
        k,
    ) by {
        if k == at {
            assert(origin_of[place] == k);
        } else {
            assert(origin.contains(k));
            let i = choose|i: int| 0 <= i < origin.len() && origin[i] == k;
            if i < place {
                assert(origin_of[i] == k);
            } else {
                assert(origin_of[i + 1] == k);
            }
        }
    }
}

/// An arrangement of the first `at` records is one of the first `at + 1` when the
/// record at `at` is a draft or a pre-release.
proof fn lemma_arranges_skipping_one(
    input: Seq<ReleaseView>,
    at: int,
    output: Seq<ReleaseView>,
    origin: Seq<int>,
)
    requires
        arranges(input, at, output, origin),
        0 <= at < input.len(),
        !input[at].is_published(),
    ensures
        arranges(input, at + 1, output, origin),
{
}

/// Every record of an arrangement is a published one.
pub proof fn lemma_arranged_are_published(
    input: Seq<ReleaseView>,
    upto: int,
    output: Seq<ReleaseView>,
    origin: Seq<int>,
)
    requires
        arranges(input, upto, output, origin),
    ensures
        forall|i: int| 0 <= i < output.len() ==> (#[trigger] output[i]).is_published(),
{
    assert forall|i: int| 0 <= i < output.len() implies (#[trigger] output[i]).is_published() by {
        assert(output[i] == input[origin[i]]);
    }
}

/// Drops the drafts and the pre-releases and puts the rest in ascending order of
/// publication. Records published at the same instant keep the order in which
/// they were handed in.
pub fn normalize(records: Vec<GitHubRelease>) -> (sorted: Vec<GitHubRelease>)
    ensures
        is_normalized(records.deep_view(), sorted.deep_view()),
        sorted.deep_view() == normalized(records.deep_view()),
        sorted.len() <= records.len(),
        forall|i: int| 0 <= i < sorted.len() ==> (#[trigger] sorted.deep_view()[i]).is_published(),
        is_ascending(sorted.deep_view()),
{
    let ghost input = records.deep_view();
    let ghost mut origin: Seq<int> = Seq::empty();
    let mut sorted: Vec<GitHubRelease> = Vec::new();
    let offered = records.len();
    for record in it: records
        invariant
            it.seq().len() == input.len(),
            input.len() == offered,
            forall|k: int| 0 <= k < input.len() ==> (#[trigger] it.seq()[k])@ == input[k],
            arranges(input, it.index() as int, sorted.deep_view(), origin),
            is_ascending(sorted.deep_view()),
            sorted.len() <= it.index(),
    {
        let ghost at = it.index() as int;
        let ghost before = sorted.deep_view();
        let ghost origin_before = origin;
        assert(record@ == input[at]);
        if record.is_not_draft_or_pre_release() {
            let place = insert_in_order(&mut sorted, record);
            proof {
                origin = origin_before.insert(place as int, at);
                lemma_arranges_with_one_more(input, at, before, origin_before, place as int);
            }
        } else {
            proof {
                lemma_arranges_skipping_one(input, at, before, origin_before);
            }
        }
    }
    proof {
        lemma_arranged_are_published(input, input.len() as int, sorted.deep_view(), origin);
        lemma_normalized_is_unique(input, sorted.deep_view());
    }
    sorted
}

/// Two arrangements of the same records take their first `count` records from the
/// same places.
proof fn lemma_origins_agree_upto(
    input: Seq<ReleaseView>,
    upto: int,
    first: Seq<ReleaseView>,
    first_origin: Seq<int>,
    second: Seq<ReleaseView>,
    second_origin: Seq<int>,
    count: int,
)
    requires
        arranges(input, upto, first, first_origin),
        arranges(input, upto, second, second_origin),
        0 <= count <= first.len(),
        count <= second.len(),
    ensures
        forall|t: int| 0 <= t < count ==> first_origin[t] == second_origin[t],
    decreases count,
{
    if count > 0 {
        lemma_origins_agree_upto(
            input,
            upto,
            first,
            first_origin,
            second,
            second_origin,
            count - 1,
        );
        let i = count - 1;
        let x = first_origin[i];
        let y = second_origin[i];
        assert(input[x].is_published());
        assert(second_origin.contains(x));
        let j = choose|j: int| 0 <= j < second_origin.len() && second_origin[j] == x;
        assert(input[y].is_published());
        assert(first_origin.contains(y));
        let k = choose|k: int| 0 <= k < first_origin.len() && first_origin[k] == y;
        if j < i {
            assert(comes_before(input, first_origin[j], first_origin[i]));
        }
        if k < i {
            assert(comes_before(input, second_origin[k], second_origin[i]));
        }
        if j > i {
            assert(comes_before(input, second_origin[i], second_origin[j]));
            if k > i {
                assert(comes_before(input, first_origin[i], first_origin[k]));
            }
        }
    }
}

/// What the normal order of some records is, is settled by the records: two lists
/// that both arrange them are one and the same list, taken from the same places.
pub proof fn lemma_arrangement_is_unique(
    input: Seq<ReleaseView>,
    upto: int,
    first: Seq<ReleaseView>,
    first_origin: Seq<int>,
    second: Seq<ReleaseView>,
    second_origin: Seq<int>,
)
    requires
        arranges(input, upto, first, first_origin),
        arranges(input, upto, second, second_origin),
    ensures
        first == second,
        first_origin == second_origin,
{
    let shorter = if first.len() <= second.len() {
        first.len() as int
    } else {
        second.len() as int
    };
    lemma_origins_agree_upto(input, upto, first, first_origin, second, second_origin, shorter);
    if first.len() < second.len() {
        let y = second_origin[shorter];
        assert(input[y].is_published());
        assert(first_origin.contains(y));
        let k = choose|k: int| 0 <= k < first_origin.len() && first_origin[k] == y;
        assert(comes_before(input, second_origin[k], second_origin[shorter]));
    }
    if second.len() < first.len() {
        let x = first_origin[shorter];
        assert(input[x].is_published());
        assert(second_origin.contains(x));
        let j = choose|j: int| 0 <= j < second_origin.len() && second_origin[j] == x;
        assert(comes_before(input, first_origin[j], first_origin[shorter]));
    }
    assert(first_origin =~= second_origin);
    assert forall|i: int| 0 <= i < first.len() implies first[i] == second[i] by {
        assert(first[i] == input[first_origin[i]]);
        assert(second[i] == input[second_origin[i]]);
    }
    assert(first =~= second);
}

/// The normal form of some records: the one list that [`is_normalized`] admits.
pub open spec fn normalized(input: Seq<ReleaseView>) -> Seq<ReleaseView> {
    choose|output: Seq<ReleaseView>| is_normalized(input, output)
}

/// A list that is a normal form of some records is their normal form.
pub proof fn lemma_normalized_is_unique(input: Seq<ReleaseView>, output: Seq<ReleaseView>)
    requires
        is_normalized(input, output),
    ensures
        output == normalized(input),
{
    let other = normalized(input);
    let origin = choose|origin: Seq<int>| arranges(input, input.len() as int, output, origin);
    let other_origin = choose|origin: Seq<int>| arranges(input, input.len() as int, other, origin);
    lemma_arrangement_is_unique(input, input.len() as int, output, origin, other, other_origin);
}

/// The normal form of some records holds no draft and no pre-release.
pub proof fn lemma_normalized_holds_published_only(
    input: Seq<ReleaseView>,
    output: Seq<ReleaseView>,
)
    requires
        is_normalized(input, output),
    ensures
        forall|i: int|
            0 <= i < output.len() ==> !(#[trigger] output[i]).draft && !output[i].prerelease,
{
    let origin = choose|origin: Seq<int>| arranges(input, input.len() as int, output, origin);
    lemma_arranged_are_published(input, input.len() as int, output, origin);
}

/// The normal form of some records is no longer than the records.
pub proof fn lemma_normalized_is_no_longer(input: Seq<ReleaseView>, output: Seq<ReleaseView>)
    requires
        is_normalized(input, output),
    ensures
        output.len() <= input.len(),
{
    let origin = choose|origin: Seq<int>| arranges(input, input.len() as int, output, origin);
    assert forall|i: int, j: int|
        0 <= i < origin.len() && 0 <= j < origin.len() && i != j implies origin[i] != origin[j] by {
        if i < j {
            assert(comes_before(input, origin[i], origin[j]));
        } else {
            assert(comes_before(input, origin[j], origin[i]));
        }
    }
    origin.unique_seq_to_set();
    lemma_int_range(0, input.len() as int);
    assert forall|k: int| origin.to_set().contains(k) implies set_int_range(
        0,
        input.len() as int,
    ).contains(k) by {
        let i = choose|i: int| 0 <= i < origin.len() && origin[i] == k;
        assert(0 <= origin[i] < input.len());
    }
    lemma_len_subset(origin.to_set(), set_int_range(0, input.len() as int));
}

/// The normal form of some records is in ascending order of publication.
pub proof fn lemma_normalized_is_ascending(input: Seq<ReleaseView>, output: Seq<ReleaseView>)
    requires
        is_normalized(input, output),
    ensures
        is_ascending(output),
{
    let origin = choose|origin: Seq<int>| arranges(input, input.len() as int, output, origin);
    assert forall|i: int, j: int| 0 <= i < j < output.len() implies (#[trigger] output[i]).published_at.not_after(
        (#[trigger] output[j]).published_at,
    ) by {
        assert(comes_before(input, origin[i], origin[j]));
        assert(output[i] == input[origin[i]]);
        assert(output[j] == input[origin[j]]);
    }
}

/// Two published records of one instant stand in the normal form in the order in
/// which the input had them: each has a place of its own there, and the place of
/// the one that came first is the earlier one.
pub proof fn lemma_normalized_keeps_order_of_equal_instants(
    input: Seq<ReleaseView>,
    output: Seq<ReleaseView>,
    earlier: int,
    later: int,
)
    requires
        is_normalized(input, output),
        0 <= earlier < later < input.len(),
        input[earlier].is_published(),
        input[later].is_published(),
        input[earlier].published_at == input[later].published_at,
    ensures
        exists|i: int, j: int|
            0 <= i < j < output.len() && #[trigger] output[i] == input[earlier]
                && #[trigger] output[j] == input[later],
{
    let origin = choose|origin: Seq<int>| arranges(input, input.len() as int, output, origin);
    assert(origin.contains(earlier));
    assert(origin.contains(later));
    let i = choose|i: int| 0 <= i < origin.len() && origin[i] == earlier;
    let j = choose|j: int| 0 <= j < origin.len() && origin[j] == later;
    if j < i {
        assert(comes_before(input, origin[j], origin[i]));
    }
    assert(output[i] == input[origin[i]]);
    assert(output[j] == input[origin[j]]);
    assert(0 <= i < j < output.len() && output[i] == input[earlier] && output[j] == input[later]);
}

/// Every published record of the input has a place in the normal form, and every
/// record of the normal form is a published record of the input.
pub proof fn lemma_normalized_holds_the_published(
    input: Seq<ReleaseView>,
    output: Seq<ReleaseView>,
)
    requires
        is_normalized(input, output),
    ensures
        forall|k: int|
            0 <= k < input.len() && (#[trigger] input[k]).is_published() ==> output.contains(
                input[k],
            ),
        forall|i: int|
            0 <= i < output.len() ==> input.contains(#[trigger] output[i]) && output[i].is_published(),
{
    let origin = choose|origin: Seq<int>| arranges(input, input.len() as int, output, origin);
    assert forall|k: int|
        0 <= k < input.len() && (#[trigger] input[k]).is_published() implies output.contains(
        input[k],
    ) by {
        assert(origin.contains(k));
        let i = choose|i: int| 0 <= i < origin.len() && origin[i] == k;
        assert(output[i] == input[origin[i]]);
    }
    assert forall|i: int| 0 <= i < output.len() implies input.contains(#[trigger] output[i])
        && output[i].is_published() by {
        assert(output[i] == input[origin[i]]);
    }
}

} // verus!
