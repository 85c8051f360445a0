//! What holds of rows and cohorts.

use vstd::prelude::*;

use crate::text::{all_in, keys};
use crate::worker_pool::cohorts::{
    first_member, has_equivalent, homogeneous, is_member, lemma_first_member, relevant,
    relevant_rows, rows_agree, CohortKey,
};
use crate::worker_pool::matching::same_members;
use crate::worker_pool::profile::{ProfileRequirement, RouteRequirement, ServiceProfile};
use crate::worker_pool::record::Registration;
use crate::worker_pool::validation::rows_fault;

verus! {

/// Two lists without repetitions that have the same members hold the same values.
pub proof fn lemma_same_members<V>(left: Seq<V>, right: Seq<V>)
    requires
        left.no_duplicates(),
        right.no_duplicates(),
        same_members(left, right),
    ensures
        forall|v: V| left.contains(v) <==> right.contains(v),
{
    left.unique_seq_to_set();
    right.unique_seq_to_set();
    assert(left.to_set().subset_of(right.to_set())) by {
        assert forall|v: V| left.to_set().contains(v) implies right.to_set().contains(v) by {
            let i = left.index_of(v);
            assert(left[i] == v);
        }
    }
    vstd::seq_lib::seq_to_set_is_finite(left);
    vstd::seq_lib::seq_to_set_is_finite(right);
    vstd::set_lib::lemma_subset_equality(left.to_set(), right.to_set());
    assert forall|v: V| right.contains(v) implies left.contains(v) by {
        assert(right.to_set().contains(v));
        assert(left.to_set().contains(v));
    }
    assert forall|v: V| left.contains(v) implies right.contains(v) by {
        assert(left.to_set().contains(v));
        assert(right.to_set().contains(v));
    }
}

/// Two lists without repetitions that hold the same values have the same members.
pub proof fn lemma_same_values<V>(left: Seq<V>, right: Seq<V>)
    requires
        left.no_duplicates(),
        right.no_duplicates(),
        forall|v: V| left.contains(v) <==> right.contains(v),
    ensures
        same_members(left, right),
{
    left.unique_seq_to_set();
    right.unique_seq_to_set();
    assert(left.to_set() =~= right.to_set());
    assert forall|i: int| 0 <= i < left.len() implies right.contains(#[trigger] left[i]) by {
        assert(left.contains(left[i]));
    }
}

/// On lists without repetitions, having the same members is symmetric and
/// transitive.
proof fn lemma_same_members_chain<V>(a: Seq<V>, b: Seq<V>, c: Seq<V>)
    requires
        a.no_duplicates(),
        b.no_duplicates(),
        c.no_duplicates(),
        same_members(a, b),
        same_members(c, b),
    ensures
        same_members(a, c),
        same_members(b, a),
{
    lemma_same_members(a, b);
    lemma_same_members(c, b);
    lemma_same_values(a, c);
    lemma_same_values(b, a);
}

/// What `first` lists holds what `required` lists exactly when `second` does.
proof fn lemma_same_cover<V>(required: Seq<V>, first: Seq<V>, second: Seq<V>)
    requires
        forall|v: V| first.contains(v) <==> second.contains(v),
    ensures
        all_in(required, first) <==> all_in(required, second),
{
    if all_in(required, first) {
        assert forall|i: int| 0 <= i < required.len() implies second.contains(
            #[trigger] required[i],
        ) by {
            assert(first.contains(required[i]));
        }
    }
    if all_in(required, second) {
        assert forall|i: int| 0 <= i < required.len() implies first.contains(
            #[trigger] required[i],
        ) by {
            assert(second.contains(required[i]));
        }
    }
}

/// Equivalent rows serve the same requests: the order in which a valid row
/// lists its capabilities is immaterial.
pub proof fn law_equivalent_rows_serve_alike(
    left: ServiceProfile,
    right: ServiceProfile,
    requirement: ProfileRequirement,
    default: Option<Seq<char>>,
)
    requires
        left.valid(),
        right.valid(),
        left.equivalent(&right),
    ensures
        left.serves(&requirement, default) == right.serves(&requirement, default),
{
    match (left, right) {
        (
            ServiceProfile::GenerationHttp {
                model_ids: a_models,
                message_content_forms: a_forms,
                media_placements: a_placements,
                input_modalities: a_inputs,
                output_modalities: a_outputs,
                chat_audio_formats: a_audio,
                stream_modes: a_streams,
            },
            ServiceProfile::GenerationHttp {
                model_ids: b_models,
                message_content_forms: b_forms,
                media_placements: b_placements,
                input_modalities: b_inputs,
                output_modalities: b_outputs,
                chat_audio_formats: b_audio,
                stream_modes: b_streams,
            },
        ) => {
            lemma_same_members(keys(a_models@), keys(b_models@));
            lemma_same_members(keys(a_forms@), keys(b_forms@));
            lemma_same_members(keys(a_placements@), keys(b_placements@));
            lemma_same_members(keys(a_inputs@), keys(b_inputs@));
            lemma_same_members(keys(a_outputs@), keys(b_outputs@));
            lemma_same_members(keys(a_audio@), keys(b_audio@));
            lemma_same_members(keys(a_streams@), keys(b_streams@));
            if let ProfileRequirement::GenerationHttp {
                message_content_forms,
                media_placements,
                input_modalities,
                output_modalities,
                ..
            } = requirement {
                lemma_same_cover(keys(message_content_forms@), keys(a_forms@), keys(b_forms@));
                lemma_same_cover(keys(media_placements@), keys(a_placements@), keys(b_placements@));
                lemma_same_cover(keys(input_modalities@), keys(a_inputs@), keys(b_inputs@));
                lemma_same_cover(keys(output_modalities@), keys(a_outputs@), keys(b_outputs@));
            }
        },
        (
            ServiceProfile::SpeechHttp {
                model_ids: am,
                response_formats: af,
                stream_modes: a_modes,
                tasks: at,
                reference_forms: ar,
                ..
            },
            ServiceProfile::SpeechHttp {
                model_ids: bm,
                response_formats: bf,
                stream_modes: b_modes,
                tasks: bt,
                reference_forms: br,
                ..
            },
        ) => {
            lemma_same_members(keys(am@), keys(bm@));
            lemma_same_members(keys(af@), keys(bf@));
            lemma_same_members(keys(a_modes@), keys(b_modes@));
            lemma_same_members(keys(at@), keys(bt@));
            lemma_same_members(keys(ar@), keys(br@));
            if let ProfileRequirement::SpeechHttp { reference_forms, .. } = requirement {
                lemma_same_cover(keys(reference_forms@), keys(ar@), keys(br@));
            }
        },
        (
            ServiceProfile::SpeechBatch {
                model_ids: am,
                response_formats: af,
                tasks: at,
                reference_forms: ar,
                ..
            },
            ServiceProfile::SpeechBatch {
                model_ids: bm,
                response_formats: bf,
                tasks: bt,
                reference_forms: br,
                ..
            },
        ) => {
            lemma_same_members(keys(am@), keys(bm@));
            lemma_same_members(keys(af@), keys(bf@));
            lemma_same_members(keys(at@), keys(bt@));
            lemma_same_members(keys(ar@), keys(br@));
            if let ProfileRequirement::SpeechBatch {
                models,
                response_formats,
                tasks,
                reference_forms,
                ..
            } = requirement {
                lemma_same_cover(keys(response_formats@), keys(af@), keys(bf@));
                lemma_same_cover(keys(tasks@), keys(at@), keys(bt@));
                lemma_same_cover(keys(reference_forms@), keys(ar@), keys(br@));
                assert forall|i: int| 0 <= i < models@.len() implies (#[trigger] models@[i]).served_by(
                    keys(am@),
                    default,
                ) == models@[i].served_by(keys(bm@), default) by {}
            }
        },
        (
            ServiceProfile::TranscriptionHttp {
                model_ids: am,
                response_formats: af,
                stream_modes: a_modes,
                ..
            },
            ServiceProfile::TranscriptionHttp {
                model_ids: bm,
                response_formats: bf,
                stream_modes: b_modes,
                ..
            },
        ) => {
            lemma_same_members(keys(am@), keys(bm@));
            lemma_same_members(keys(af@), keys(bf@));
            lemma_same_members(keys(a_modes@), keys(b_modes@));
        },
        (
            ServiceProfile::SpeechWebsocket {
                model_ids: am,
                response_formats: af,
                stream_modes: a_modes,
                tasks: at,
                reference_forms: ar,
                ..
            },
            ServiceProfile::SpeechWebsocket {
                model_ids: bm,
                response_formats: bf,
                stream_modes: b_modes,
                tasks: bt,
                reference_forms: br,
                ..
            },
        ) => {
            lemma_same_members(keys(am@), keys(bm@));
            lemma_same_members(keys(af@), keys(bf@));
            lemma_same_members(keys(a_modes@), keys(b_modes@));
            lemma_same_members(keys(at@), keys(bt@));
            lemma_same_members(keys(ar@), keys(br@));
            if let ProfileRequirement::SpeechWebsocket { reference_forms, .. } = requirement {
                lemma_same_cover(keys(reference_forms@), keys(ar@), keys(br@));
            }
        },
        _ => {},
    }
}

/// Every row is equivalent to itself.
pub proof fn law_row_equivalence_is_reflexive(row: ServiceProfile)
    ensures
        row.equivalent(&row),
{
    match row {
        ServiceProfile::GenerationHttp {
            model_ids,
            message_content_forms,
            media_placements,
            input_modalities,
            output_modalities,
            chat_audio_formats,
            stream_modes,
        } => {
            lemma_same_as_itself(keys(model_ids@));
            lemma_same_as_itself(keys(message_content_forms@));
            lemma_same_as_itself(keys(media_placements@));
            lemma_same_as_itself(keys(input_modalities@));
            lemma_same_as_itself(keys(output_modalities@));
            lemma_same_as_itself(keys(chat_audio_formats@));
            lemma_same_as_itself(keys(stream_modes@));
        },
        _ => {},
    }
}

/// Equivalence of valid rows is symmetric and transitive: two rows that are
/// equivalent to a third are equivalent to each other, and it to them.
pub proof fn law_row_equivalence_is_symmetric_and_transitive(
    a: ServiceProfile,
    b: ServiceProfile,
    c: ServiceProfile,
)
    requires
        a.valid(),
        b.valid(),
        c.valid(),
        a.equivalent(&b),
        c.equivalent(&b),
    ensures
        b.equivalent(&a),
        a.equivalent(&c),
{
    match (a, b, c) {
        (
            ServiceProfile::GenerationHttp {
                model_ids: a1,
                message_content_forms: a2,
                media_placements: a3,
                input_modalities: a4,
                output_modalities: a5,
                chat_audio_formats: a6,
                stream_modes: a7,
            },
            ServiceProfile::GenerationHttp {
                model_ids: b1,
                message_content_forms: b2,
                media_placements: b3,
                input_modalities: b4,
                output_modalities: b5,
                chat_audio_formats: b6,
                stream_modes: b7,
            },
            ServiceProfile::GenerationHttp {
                model_ids: c1,
                message_content_forms: c2,
                media_placements: c3,
                input_modalities: c4,
                output_modalities: c5,
                chat_audio_formats: c6,
                stream_modes: c7,
            },
        ) => {
            lemma_same_members_chain(keys(a1@), keys(b1@), keys(c1@));
            lemma_same_members_chain(keys(a2@), keys(b2@), keys(c2@));
            lemma_same_members_chain(keys(a3@), keys(b3@), keys(c3@));
            lemma_same_members_chain(keys(a4@), keys(b4@), keys(c4@));
            lemma_same_members_chain(keys(a5@), keys(b5@), keys(c5@));
            lemma_same_members_chain(keys(a6@), keys(b6@), keys(c6@));
            lemma_same_members_chain(keys(a7@), keys(b7@), keys(c7@));
        },
        (
            ServiceProfile::SpeechHttp {
                model_ids: a1,
                response_formats: a2,
                stream_modes: a3,
                tasks: a4,
                reference_forms: a5,
                ..
            },
            ServiceProfile::SpeechHttp {
                model_ids: b1,
                response_formats: b2,
                stream_modes: b3,
                tasks: b4,
                reference_forms: b5,
                ..
            },
            ServiceProfile::SpeechHttp {
                model_ids: c1,
                response_formats: c2,
                stream_modes: c3,
                tasks: c4,
                reference_forms: c5,
                ..
            },
        ) => {
            lemma_same_members_chain(keys(a1@), keys(b1@), keys(c1@));
            lemma_same_members_chain(keys(a2@), keys(b2@), keys(c2@));
            lemma_same_members_chain(keys(a3@), keys(b3@), keys(c3@));
            lemma_same_members_chain(keys(a4@), keys(b4@), keys(c4@));
            lemma_same_members_chain(keys(a5@), keys(b5@), keys(c5@));
        },
        (
            ServiceProfile::SpeechBatch {
                model_ids: a1,
                response_formats: a2,
                tasks: a3,
                reference_forms: a4,
                ..
            },
            ServiceProfile::SpeechBatch {
                model_ids: b1,
                response_formats: b2,
                tasks: b3,
                reference_forms: b4,
                ..
            },
            ServiceProfile::SpeechBatch {
                model_ids: c1,
                response_formats: c2,
                tasks: c3,
                reference_forms: c4,
                ..
            },
        ) => {
            lemma_same_members_chain(keys(a1@), keys(b1@), keys(c1@));
            lemma_same_members_chain(keys(a2@), keys(b2@), keys(c2@));
            lemma_same_members_chain(keys(a3@), keys(b3@), keys(c3@));
            lemma_same_members_chain(keys(a4@), keys(b4@), keys(c4@));
        },
        (
            ServiceProfile::TranscriptionHttp {
                model_ids: a1,
                response_formats: a2,
                stream_modes: a3,
                ..
            },
            ServiceProfile::TranscriptionHttp {
                model_ids: b1,
                response_formats: b2,
                stream_modes: b3,
                ..
            },
            ServiceProfile::TranscriptionHttp {
                model_ids: c1,
                response_formats: c2,
                stream_modes: c3,
                ..
            },
        ) => {
            lemma_same_members_chain(keys(a1@), keys(b1@), keys(c1@));
            lemma_same_members_chain(keys(a2@), keys(b2@), keys(c2@));
            lemma_same_members_chain(keys(a3@), keys(b3@), keys(c3@));
        },
        (
            ServiceProfile::SpeechWebsocket {
                model_ids: a1,
                response_formats: a2,
                stream_modes: a3,
                tasks: a4,
                reference_forms: a5,
                ..
            },
            ServiceProfile::SpeechWebsocket {
                model_ids: b1,
                response_formats: b2,
                stream_modes: b3,
                tasks: b4,
                reference_forms: b5,
                ..
            },
            ServiceProfile::SpeechWebsocket {
                model_ids: c1,
                response_formats: c2,
                stream_modes: c3,
                tasks: c4,
                reference_forms: c5,
                ..
            },
        ) => {
            lemma_same_members_chain(keys(a1@), keys(b1@), keys(c1@));
            lemma_same_members_chain(keys(a2@), keys(b2@), keys(c2@));
            lemma_same_members_chain(keys(a3@), keys(b3@), keys(c3@));
            lemma_same_members_chain(keys(a4@), keys(b4@), keys(c4@));
            lemma_same_members_chain(keys(a5@), keys(b5@), keys(c5@));
        },
        _ => {},
    }
}

/// A list has the same members as itself.
proof fn lemma_same_as_itself<V>(list: Seq<V>)
    ensures
        same_members(list, list),
{
}

/// The rows of a worker break no rule.
pub open spec fn faultless(worker: Registration) -> bool {
    rows_fault(worker.profiles, worker.profiles.len()) is None
}

/// Faultless rows are valid, and none is equivalent to another.
pub proof fn lemma_faultless_rows(rows: Seq<ServiceProfile>, count: nat)
    requires
        count <= rows.len(),
        rows_fault(rows, count) is None,
    ensures
        forall|i: int| 0 <= i < count ==> (#[trigger] rows[i]).valid(),
        forall|i: int, j: int|
            #![trigger rows[i], rows[j]]
            0 <= j < i < count ==> !rows[i].equivalent(&rows[j]),
    decreases count,
{
    if count > 0 {
        let last = (count - 1) as nat;
        lemma_faultless_rows(rows, last);
    }
}

/// A row serves only requests for its service and task.
proof fn lemma_serving_row_is_relevant(
    row: ServiceProfile,
    requirement: ProfileRequirement,
    default: Option<Seq<char>>,
)
    requires
        row.serves(&requirement, default),
    ensures
        relevant(row, requirement.service(), requirement.task()),
{
}

/// The places of relevant rows are finitely many.
proof fn lemma_relevant_rows_finite(rows: Seq<ServiceProfile>, key: CohortKey)
    ensures
        relevant_rows(rows, key.service, key.task).finite(),
{
    let all = vstd::set_lib::set_int_range(0, rows.len() as int);
    vstd::set_lib::lemma_int_range(0, rows.len() as int);
    assert(relevant_rows(rows, key.service, key.task).subset_of(all));
    vstd::set_lib::lemma_len_subset(relevant_rows(rows, key.service, key.task), all);
}

/// Where the rows of two workers agree, each relevant row on the right is the
/// equivalent of one on the left: distinct rows have distinct equivalents, and
/// there are equally many of them.
proof fn lemma_agreeing_rows_cover(
    left: Seq<ServiceProfile>,
    right: Seq<ServiceProfile>,
    key: CohortKey,
    j: int,
) -> (i: int)
    requires
        rows_fault(left, left.len()) is None,
        rows_fault(right, right.len()) is None,
        rows_agree(left, right, key.service, key.task),
        0 <= j < right.len(),
        relevant(right[j], key.service, key.task),
    ensures
        0 <= i < left.len(),
        relevant(left[i], key.service, key.task),
        left[i].equivalent(&right[j]),
{
    lemma_faultless_rows(left, left.len());
    lemma_faultless_rows(right, right.len());
    let from = relevant_rows(left, key.service, key.task);
    let onto = relevant_rows(right, key.service, key.task);
    lemma_relevant_rows_finite(left, key);
    lemma_relevant_rows_finite(right, key);
    let image_of = |i: int|
        choose|k: int|
            0 <= k < right.len() && relevant(right[k], key.service, key.task)
                && left[i].equivalent(#[trigger] &right[k]);
    assert forall|i: int| #[trigger] from.contains(i) implies {
        let k = image_of(i);
        &&& 0 <= k < right.len()
        &&& relevant(right[k], key.service, key.task)
        &&& left[i].equivalent(&right[k])
    } by {
        assert(has_equivalent(left[i], right, key.service, key.task));
    }
    let image = from.map(image_of);
    assert forall|x: int, y: int|
        from.contains(x) && from.contains(y) && #[trigger] image_of(x) == #[trigger] image_of(
            y,
        ) implies x == y by {
        let k = image_of(x);
        law_row_equivalence_is_symmetric_and_transitive(left[x], right[k], left[y]);
        law_row_equivalence_is_symmetric_and_transitive(left[y], right[k], left[x]);
        if x < y {
            assert(!left[y].equivalent(&left[x]));
        }
        if y < x {
            assert(!left[x].equivalent(&left[y]));
        }
    }
    vstd::set_lib::lemma_map_size(from, image, image_of);
    assert(image.subset_of(onto)) by {
        assert forall|k: int| image.contains(k) implies onto.contains(k) by {
            let i = choose|i: int| from.contains(i) && k == image_of(i);
            assert(from.contains(i));
        }
    }
    vstd::set_lib::lemma_subset_equality(image, onto);
    assert(onto.contains(j));
    assert(image.contains(j));
    let i = choose|i: int| from.contains(i) && j == image_of(i);
    assert(from.contains(i));
    i
}

/// Startup proof that inspecting a request cannot change its cohort: of a
/// homogeneous cohort of faultless workers, a request for the service and task
/// of the cohort is served by every member or by none.
pub proof fn law_cohort_members_serve_alike(
    roster: Seq<Registration>,
    key: CohortKey,
    requirement: RouteRequirement,
    a: int,
    b: int,
)
    requires
        homogeneous(roster, key),
        forall|i: int| 0 <= i < roster.len() ==> faultless(#[trigger] roster[i]),
        requirement.needs().service() == key.service,
        requirement.needs().task() == key.task,
        0 <= a < roster.len(),
        0 <= b < roster.len(),
        is_member(roster[a], key),
        is_member(roster[b], key),
    ensures
        roster[a].serves(requirement) == roster[b].serves(requirement),
{
    lemma_member_like_first(roster, key, requirement, a);
    lemma_member_like_first(roster, key, requirement, b);
}

/// A member serves what the first member serves.
proof fn lemma_member_like_first(
    roster: Seq<Registration>,
    key: CohortKey,
    requirement: RouteRequirement,
    member: int,
)
    requires
        homogeneous(roster, key),
        forall|i: int| 0 <= i < roster.len() ==> faultless(#[trigger] roster[i]),
        requirement.needs().service() == key.service,
        requirement.needs().task() == key.task,
        0 <= member < roster.len(),
        is_member(roster[member], key),
    ensures
        roster[member].serves(requirement) == roster[first_member(roster, key, 0)].serves(
            requirement,
        ),
{
    lemma_first_member(roster, key, 0);
    let first = first_member(roster, key, 0);
    let here = roster[member];
    let model = roster[first];
    assert(faultless(here));
    assert(faultless(model));
    assert(rows_agree(here.profiles, model.profiles, key.service, key.task));
    lemma_faultless_rows(here.profiles, here.profiles.len());
    lemma_faultless_rows(model.profiles, model.profiles.len());
    let needs = requirement.needs();
    if here.fits(requirement) {
        let row = choose|row: int| #[trigger] here.row_serves(requirement, row);
        lemma_serving_row_is_relevant(here.profiles[row], needs, here.default);
        assert(has_equivalent(here.profiles[row], model.profiles, key.service, key.task));
        let j = choose|j: int|
            0 <= j < model.profiles.len() && relevant(model.profiles[j], key.service, key.task)
                && here.profiles[row].equivalent(#[trigger] &model.profiles[j]);
        law_equivalent_rows_serve_alike(
            here.profiles[row],
            model.profiles[j],
            needs,
            here.default,
        );
        assert(model.row_serves(requirement, j));
    }
    if model.fits(requirement) {
        let row = choose|row: int| #[trigger] model.row_serves(requirement, row);
        lemma_serving_row_is_relevant(model.profiles[row], needs, model.default);
        let i = lemma_agreeing_rows_cover(here.profiles, model.profiles, key, row);
        law_equivalent_rows_serve_alike(
            here.profiles[i],
            model.profiles[row],
            needs,
            here.default,
        );
        assert(here.row_serves(requirement, i));
    }
}

/// Matching never combines rows: a worker serves a request exactly when it
/// would serve it with one of its rows alone.
pub proof fn law_matching_never_combines_rows(worker: Registration, requirement: RouteRequirement)
    ensures
        worker.serves(requirement) <==> exists|row: int|
            0 <= row < worker.profiles.len() && #[trigger] with_row_alone(worker, row).serves(
                requirement,
            ),
{
    if worker.serves(requirement) {
        let row = choose|row: int| #[trigger] worker.row_serves(requirement, row);
        assert(with_row_alone(worker, row).row_serves(requirement, 0));
        assert(with_row_alone(worker, row).serves(requirement));
    }
    if exists|row: int|
        0 <= row < worker.profiles.len() && #[trigger] with_row_alone(worker, row).serves(
            requirement,
        ) {
        let row = choose|row: int|
            0 <= row < worker.profiles.len() && #[trigger] with_row_alone(worker, row).serves(
                requirement,
            );
        let alone = with_row_alone(worker, row);
        let only = choose|only: int| #[trigger] alone.row_serves(requirement, only);
        assert(worker.row_serves(requirement, row));
    }
}

/// The worker, with one of its rows alone.
pub open spec fn with_row_alone(worker: Registration, row: int) -> Registration {
    Registration { profiles: seq![worker.profiles[row]], ..worker }
}

/// A worker never serves a request of another trust domain, nor one for a
/// service that it does not advertise.
pub proof fn law_requests_stay_in_their_domain_and_service(
    worker: Registration,
    requirement: RouteRequirement,
)
    requires
        worker.serves(requirement),
    ensures
        worker.trust == requirement.domain(),
        worker.offers(requirement.needs().service()),
{
    let row = choose|row: int| #[trigger] worker.row_serves(requirement, row);
    lemma_serving_row_is_relevant(worker.profiles[row], requirement.needs(), worker.default);
}

} // verus!
