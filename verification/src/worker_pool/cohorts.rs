//! Cohorts of interchangeable workers.

use vstd::prelude::*;

use crate::text::{same_optional_text, Item};
use crate::worker_pool::profile::{
    ServiceClass, ServiceProfile, SpeechToTextTask, TrustDomain, VoiceNamePolicy, MAX_WORKERS,
};
use crate::worker_pool::record::{Registration, WorkerRecord};

verus! {

/// A row is for the service and task.
pub open spec fn relevant(
    row: ServiceProfile,
    service: ServiceClass,
    task: Option<SpeechToTextTask>,
) -> bool {
    row.service() == service && row.task() == task
}

/// The places of the rows for the service and task.
pub open spec fn relevant_rows(
    rows: Seq<ServiceProfile>,
    service: ServiceClass,
    task: Option<SpeechToTextTask>,
) -> Set<int> {
    Set::new(|i: int| 0 <= i < rows.len() && relevant(rows[i], service, task))
}

/// Row `row` for the service and task has an equivalent in the other rows.
pub open spec fn has_equivalent(
    row: ServiceProfile,
    rows: Seq<ServiceProfile>,
    service: ServiceClass,
    task: Option<SpeechToTextTask>,
) -> bool {
    exists|j: int|
        0 <= j < rows.len() && relevant(rows[j], service, task) && row.equivalent(
            #[trigger] &rows[j],
        )
}

/// For the service and task, the two workers have equally many rows, and each
/// row of the left one has an equivalent on the right.
pub open spec fn rows_agree(
    left: Seq<ServiceProfile>,
    right: Seq<ServiceProfile>,
    service: ServiceClass,
    task: Option<SpeechToTextTask>,
) -> bool {
    &&& relevant_rows(left, service, task).len() == relevant_rows(right, service, task).len()
    &&& forall|i: int|
        0 <= i < left.len() && relevant(left[i], service, task) ==> has_equivalent(
            #[trigger] left[i],
            right,
            service,
            task,
        )
}

/// A service and task in a trust domain.
pub struct CohortKey {
    pub trust: Seq<char>,
    pub service: ServiceClass,
    pub task: Option<SpeechToTextTask>,
}

/// The worker is in the trust domain and has a row for the service and task.
pub open spec fn is_member(worker: Registration, key: CohortKey) -> bool {
    &&& worker.trust == key.trust
    &&& exists|i: int|
        0 <= i < worker.profiles.len() && relevant(
            #[trigger] worker.profiles[i],
            key.service,
            key.task,
        )
}

/// The first member at `from` or later; the end of the roster if there is none.
pub open spec fn first_member(roster: Seq<Registration>, key: CohortKey, from: int) -> int
    decreases roster.len() - from,
{
    if from >= roster.len() {
        roster.len() as int
    } else if is_member(roster[from], key) {
        from
    } else {
        first_member(roster, key, from + 1)
    }
}

/// The members are interchangeable: they have one default model, and their
/// rows for the service and task agree.
pub open spec fn homogeneous(roster: Seq<Registration>, key: CohortKey) -> bool {
    let first = first_member(roster, key, 0);
    &&& first < roster.len()
    &&& roster[first].default is Some
    &&& forall|i: int|
        0 <= i < roster.len() && is_member(#[trigger] roster[i], key) ==> {
            &&& roster[i].default == roster[first].default
            &&& rows_agree(roster[i].profiles, roster[first].profiles, key.service, key.task)
        }
}

/// The key of chat generation in a trust domain.
pub open spec fn generation_key(trust: Seq<char>) -> CohortKey {
    CohortKey { trust, service: ServiceClass::GenerationHttp, task: None }
}

/// Some row of the worker for the service reads a voice name as an uploaded voice.
pub open spec fn reads_uploaded(worker: Registration, service: ServiceClass) -> bool {
    exists|i: int|
        0 <= i < worker.profiles.len() && (#[trigger] worker.profiles[i]).service() == service
            && worker.profiles[i].policy() == Some(VoiceNamePolicy::Uploaded)
}

/// Requests for the key can be routed without reading their content: the
/// members are interchangeable and, where names may denote uploaded voices,
/// the only member is the owner of the voices.
pub open spec fn content_blind(
    roster: Seq<Registration>,
    voice_owner: Option<usize>,
    key: CohortKey,
) -> bool {
    &&& !(key.service is GenerationHttp)
    &&& !(key.service is SpeechBatch)
    &&& homogeneous(roster, key)
    &&& key.service is SpeechHttp && reads_uploaded(
        roster[first_member(roster, key, 0)],
        key.service,
    ) ==> {
        &&& voice_owner is Some
        &&& forall|i: int|
            0 <= i < roster.len() && is_member(#[trigger] roster[i], key) ==> i
                == voice_owner->Some_0
    }
}

/// The members of the cohort.
pub open spec fn members(roster: Seq<Registration>, key: CohortKey) -> Seq<bool> {
    Seq::new(MAX_WORKERS as nat, |i: int| i < roster.len() && is_member(roster[i], key))
}

/// What is fixed about each worker.
pub open spec fn roster_of(records: Seq<WorkerRecord>) -> Seq<Registration> {
    Seq::new(records.len(), |i: int| records[i].registration())
}

/// Where the first member stands.
pub proof fn lemma_first_member(roster: Seq<Registration>, key: CohortKey, from: int)
    requires
        0 <= from <= roster.len(),
    ensures
        ({
            let first = first_member(roster, key, from);
            &&& from <= first <= roster.len()
            &&& first < roster.len() ==> is_member(roster[first], key)
            &&& forall|i: int| from <= i < first ==> !is_member(#[trigger] roster[i], key)
        }),
    decreases roster.len() - from,
{
    if from < roster.len() && !is_member(roster[from], key) {
        lemma_first_member(roster, key, from + 1);
    }
}

/// Whether two tasks are equal.
fn same_task(left: Option<SpeechToTextTask>, right: Option<SpeechToTextTask>) -> (outcome: bool)
    ensures
        outcome == (left == right),
{
    match (left, right) {
        (Some(a), Some(b)) => a == b,
        (None, None) => true,
        _ => false,
    }
}

/// Whether a row is for the service and task.
pub fn is_relevant(
    row: &ServiceProfile,
    service: ServiceClass,
    task: Option<SpeechToTextTask>,
) -> (outcome: bool)
    ensures
        outcome == relevant(*row, service, task),
{
    row.service_class() == service && same_task(row.speech_to_text_task(), task)
}

/// The number of rows for the service and task.
fn count_relevant(
    rows: &[ServiceProfile],
    service: ServiceClass,
    task: Option<SpeechToTextTask>,
) -> (count: usize)
    ensures
        count == relevant_rows(rows@, service, task).len(),
{
    let ghost all = relevant_rows(rows@, service, task);
    let ghost mut seen: Set<int> = Set::empty();
    let mut count: usize = 0;
    let mut i: usize = 0;
    while i < rows.len()
        invariant
            count <= i <= rows@.len(),
            all == relevant_rows(rows@, service, task),
            seen.finite(),
            count == seen.len(),
            forall|k: int| #[trigger] seen.contains(k) <==> k < i && all.contains(k),
        decreases rows@.len() - i,
    {
        if is_relevant(&rows[i], service, task) {
            count += 1;
            proof {
                assert(!seen.contains(i as int));
                seen = seen.insert(i as int);
            }
        }
        i += 1;
    }
    assert(seen =~= all);
    count
}

/// Whether the row has an equivalent for the service and task.
fn finds_equivalent(
    row: &ServiceProfile,
    rows: &[ServiceProfile],
    service: ServiceClass,
    task: Option<SpeechToTextTask>,
) -> (outcome: bool)
    ensures
        outcome == has_equivalent(*row, rows@, service, task),
{
    let mut j: usize = 0;
    while j < rows.len()
        invariant
            j <= rows@.len(),
            forall|k: int|
                0 <= k < j ==> !(relevant(rows@[k], service, task) && row.equivalent(
                    #[trigger] &rows@[k],
                )),
        decreases rows@.len() - j,
    {
        if is_relevant(&rows[j], service, task) && row.semantically_eq(&rows[j]) {
            return true;
        }
        j += 1;
    }
    false
}

pub fn service_rows_equal(
    left: &[ServiceProfile],
    right: &[ServiceProfile],
    service: ServiceClass,
    task: Option<SpeechToTextTask>,
) -> (outcome: bool)
    ensures
        outcome == rows_agree(left@, right@, service, task),
{
    if count_relevant(left, service, task) != count_relevant(right, service, task) {
        return false;
    }
    let mut i: usize = 0;
    while i < left.len()
        invariant
            i <= left@.len(),
            forall|k: int|
                0 <= k < i && relevant(left@[k], service, task) ==> has_equivalent(
                    #[trigger] left@[k],
                    right@,
                    service,
                    task,
                ),
        decreases left@.len() - i,
    {
        if is_relevant(&left[i], service, task) && !finds_equivalent(&left[i], right, service, task) {
            return false;
        }
        i += 1;
    }
    true
}

pub fn generation_rows_equal(left: &[ServiceProfile], right: &[ServiceProfile]) -> (outcome: bool)
    ensures
        outcome == rows_agree(left@, right@, ServiceClass::GenerationHttp, None),
{
    service_rows_equal(left, right, ServiceClass::GenerationHttp, None)
}

/// Whether the worker is in the trust domain and has a row for the service and task.
pub fn belongs(
    record: &WorkerRecord,
    trust: &TrustDomain,
    service: ServiceClass,
    task: Option<SpeechToTextTask>,
) -> (outcome: bool)
    ensures
        outcome == is_member(record.registration(), CohortKey { trust: trust@, service, task }),
{
    let rows: &[ServiceProfile] = record.profiles();
    if !record.trust_domain().same(trust) {
        return false;
    }
    let mut i: usize = 0;
    while i < rows.len()
        invariant
            i <= rows@.len(),
            rows@ == record.registration().profiles,
            record.registration().trust == trust@,
            forall|k: int| 0 <= k < i ==> !relevant(#[trigger] rows@[k], service, task),
        decreases rows@.len() - i,
    {
        if is_relevant(&rows[i], service, task) {
            return true;
        }
        i += 1;
    }
    false
}

/// The first member, if there is one.
fn find_first_member(
    records: &[WorkerRecord],
    trust: &TrustDomain,
    service: ServiceClass,
    task: Option<SpeechToTextTask>,
) -> (first: usize)
    ensures
        first == first_member(
            roster_of(records@),
            CohortKey { trust: trust@, service, task },
            0,
        ),
{
    let ghost key = CohortKey { trust: trust@, service, task };
    let ghost roster = roster_of(records@);
    let mut i: usize = 0;
    while i < records.len()
        invariant
            i <= records@.len(),
            key == (CohortKey { trust: trust@, service, task }),
            roster == roster_of(records@),
            first_member(roster, key, 0) == first_member(roster, key, i as int),
        decreases records@.len() - i,
    {
        if belongs(&records[i], trust, service, task) {
            return i;
        }
        i += 1;
    }
    i
}

/// Whether the members are interchangeable.
fn is_homogeneous(
    records: &[WorkerRecord],
    trust: &TrustDomain,
    service: ServiceClass,
    task: Option<SpeechToTextTask>,
) -> (outcome: bool)
    ensures
        outcome == homogeneous(roster_of(records@), CohortKey { trust: trust@, service, task }),
{
    let ghost key = CohortKey { trust: trust@, service, task };
    let ghost roster = roster_of(records@);
    let first: usize = find_first_member(records, trust, service, task);
    if first >= records.len() {
        return false;
    }
    if records[first].default_model_id().is_none() {
        return false;
    }
    let mut i: usize = 0;
    while i < records.len()
        invariant
            i <= records@.len(),
            first < records@.len(),
            key == (CohortKey { trust: trust@, service, task }),
            roster == roster_of(records@),
            first == first_member(roster, key, 0),
            roster[first as int].default is Some,
            forall|k: int|
                0 <= k < i && is_member(#[trigger] roster[k], key) ==> {
                    &&& roster[k].default == roster[first as int].default
                    &&& rows_agree(
                        roster[k].profiles,
                        roster[first as int].profiles,
                        key.service,
                        key.task,
                    )
                },
        decreases records@.len() - i,
    {
        if belongs(&records[i], trust, service, task) {
            let same_default = same_optional_text(
                records[i].default_model_id(),
                records[first].default_model_id(),
            );
            let same_rows = service_rows_equal(
                records[i].profiles(),
                records[first].profiles(),
                service,
                task,
            );
            if !same_default || !same_rows {
                assert(is_member(roster[i as int], key));
                return false;
            }
        }
        i += 1;
    }
    true
}

/// A trust domain in which chat requests can be routed without reading them.
#[derive(Debug)]
pub struct HomogeneousGenerationCohort {
    pub trust_domain: TrustDomain,
}

/// The trust domains of the cohorts.
pub open spec fn generation_domains(cohorts: Seq<HomogeneousGenerationCohort>) -> Seq<Seq<char>> {
    Seq::new(cohorts.len(), |i: int| cohorts[i].trust_domain@)
}

/// Whether a cohort of the trust domain is listed.
pub fn lists_domain(cohorts: &[HomogeneousGenerationCohort], trust: &TrustDomain) -> (outcome: bool)
    ensures
        outcome == generation_domains(cohorts@).contains(trust@),
{
    let ghost domains = generation_domains(cohorts@);
    let mut i: usize = 0;
    while i < cohorts.len()
        invariant
            i <= cohorts@.len(),
            domains == generation_domains(cohorts@),
            forall|k: int| 0 <= k < i ==> domains[k] != trust@,
        decreases cohorts@.len() - i,
    {
        if cohorts[i].trust_domain.same(trust) {
            assert(domains[i as int] == trust@);
            return true;
        }
        i += 1;
    }
    false
}

/// The trust domains in which chat requests can be routed without reading them.
pub fn build_content_blind_generation_cohorts(records: &[WorkerRecord]) -> (cohorts: Vec<
    HomogeneousGenerationCohort,
>)
    ensures
        generation_domains(cohorts@).no_duplicates(),
        forall|trust: Seq<char>| #[trigger]
            generation_domains(cohorts@).contains(trust) <==> homogeneous(
                roster_of(records@),
                generation_key(trust),
            ),
{
    let ghost roster = roster_of(records@);
    let mut result: Vec<HomogeneousGenerationCohort> = Vec::new();
    let mut i: usize = 0;
    while i < records.len()
        invariant
            i <= records@.len(),
            roster == roster_of(records@),
            generation_domains(result@).no_duplicates(),
            forall|k: int|
                0 <= k < result@.len() ==> homogeneous(
                    roster,
                    generation_key(#[trigger] generation_domains(result@)[k]),
                ),
            forall|k: int|
                0 <= k < i && homogeneous(roster, generation_key((#[trigger] roster[k]).trust))
                    ==> generation_domains(result@).contains(roster[k].trust),
        decreases records@.len() - i,
    {
        let trust = records[i].trust_domain();
        if !lists_domain(result.as_slice(), trust) && is_homogeneous(
            records,
            trust,
            ServiceClass::GenerationHttp,
            None,
        ) {
            let ghost before = generation_domains(result@);
            result.push(HomogeneousGenerationCohort { trust_domain: trust.duplicate() });
            proof {
                let after = generation_domains(result@);
                assert(after =~= before.push(roster[i as int].trust));
                assert forall|k: int|
                    0 <= k < i + 1 && homogeneous(
                        roster,
                        generation_key((#[trigger] roster[k]).trust),
                    ) implies after.contains(roster[k].trust) by {
                    if k < i {
                        let at = before.index_of(roster[k].trust);
                        assert(after[at] == roster[k].trust);
                    } else {
                        assert(after[before.len() as int] == roster[k].trust);
                    }
                }
            }
        }
        i += 1;
    }
    proof {
        let domains = generation_domains(result@);
        assert forall|trust: Seq<char>| #[trigger] domains.contains(trust) implies homogeneous(
            roster,
            generation_key(trust),
        ) by {
            let k = domains.index_of(trust);
            assert(homogeneous(roster, generation_key(domains[k])));
        }
        assert forall|trust: Seq<char>|
            homogeneous(roster, generation_key(trust)) implies #[trigger] domains.contains(
            trust,
        ) by {
            lemma_first_member(roster, generation_key(trust), 0);
            let first = first_member(roster, generation_key(trust), 0);
            assert(roster[first].trust == trust);
        }
    }
    result
}

/// A service and task in a trust domain whose requests can be routed without
/// reading them.
#[derive(Debug)]
pub struct HomogeneousMediaCohort {
    pub trust_domain: TrustDomain,
    pub service: ServiceClass,
    pub task: Option<SpeechToTextTask>,
}

impl View for HomogeneousMediaCohort {
    type V = CohortKey;

    open spec fn view(&self) -> CohortKey {
        CohortKey { trust: self.trust_domain@, service: self.service, task: self.task }
    }
}

/// The keys of the cohorts.
pub open spec fn media_keys(cohorts: Seq<HomogeneousMediaCohort>) -> Seq<CohortKey> {
    Seq::new(cohorts.len(), |i: int| cohorts[i]@)
}

/// Whether a cohort of the service and task in the trust domain is listed.
pub fn lists_media(
    cohorts: &[HomogeneousMediaCohort],
    trust: &TrustDomain,
    service: ServiceClass,
    task: Option<SpeechToTextTask>,
) -> (outcome: bool)
    ensures
        outcome == media_keys(cohorts@).contains(CohortKey { trust: trust@, service, task }),
{
    let ghost listed = media_keys(cohorts@);
    let ghost key = CohortKey { trust: trust@, service, task };
    let mut i: usize = 0;
    while i < cohorts.len()
        invariant
            i <= cohorts@.len(),
            listed == media_keys(cohorts@),
            key == (CohortKey { trust: trust@, service, task }),
            forall|k: int| 0 <= k < i ==> listed[k] != key,
        decreases cohorts@.len() - i,
    {
        if cohorts[i].trust_domain.same(trust) && cohorts[i].service == service && same_task(
            cohorts[i].task,
            task,
        ) {
            assert(listed[i as int] == key);
            return true;
        }
        i += 1;
    }
    false
}

/// Whether some row for the service reads a voice name as an uploaded voice.
fn has_uploaded_row(rows: &[ServiceProfile], service: ServiceClass) -> (outcome: bool)
    ensures
        outcome == exists|i: int|
            0 <= i < rows@.len() && (#[trigger] rows@[i]).service() == service
                && rows@[i].policy() == Some(VoiceNamePolicy::Uploaded),
{
    let mut i: usize = 0;
    while i < rows.len()
        invariant
            i <= rows@.len(),
            forall|k: int|
                0 <= k < i ==> !((#[trigger] rows@[k]).service() == service && rows@[k].policy()
                    == Some(VoiceNamePolicy::Uploaded)),
        decreases rows@.len() - i,
    {
        let uploaded = match rows[i].voice_name_policy() {
            Some(policy) => policy == VoiceNamePolicy::Uploaded,
            None => false,
        };
        if rows[i].service_class() == service && uploaded {
            return true;
        }
        i += 1;
    }
    false
}

/// Whether the voice owner is the only member.
fn only_member_is_owner(
    records: &[WorkerRecord],
    voice_owner: Option<usize>,
    trust: &TrustDomain,
    service: ServiceClass,
    task: Option<SpeechToTextTask>,
) -> (outcome: bool)
    ensures
        outcome == (voice_owner is Some && forall|i: int|
            0 <= i < records@.len() && is_member(
                #[trigger] roster_of(records@)[i],
                CohortKey { trust: trust@, service, task },
            ) ==> i == voice_owner->Some_0),
{
    let ghost key = CohortKey { trust: trust@, service, task };
    let ghost roster = roster_of(records@);
    match voice_owner {
        Some(owner) => {
            let mut i: usize = 0;
            while i < records.len()
                invariant
                    i <= records@.len(),
                    voice_owner == Some(owner),
                    key == (CohortKey { trust: trust@, service, task }),
                    roster == roster_of(records@),
                    forall|k: int| 0 <= k < i && is_member(#[trigger] roster[k], key) ==> k == owner,
                decreases records@.len() - i,
            {
                if i != owner && belongs(&records[i], trust, service, task) {
                    assert(is_member(roster[i as int], key));
                    return false;
                }
                i += 1;
            }
            true
        },
        None => false,
    }
}

/// Whether requests for the service and task can be routed without reading them.
fn is_content_blind(
    records: &[WorkerRecord],
    voice_owner: Option<usize>,
    trust: &TrustDomain,
    service: ServiceClass,
    task: Option<SpeechToTextTask>,
) -> (outcome: bool)
    ensures
        outcome == content_blind(
            roster_of(records@),
            voice_owner,
            CohortKey { trust: trust@, service, task },
        ),
{
    if service == ServiceClass::GenerationHttp || service == ServiceClass::SpeechBatch {
        return false;
    }
    if !is_homogeneous(records, trust, service, task) {
        return false;
    }
    let first: usize = find_first_member(records, trust, service, task);
    let requires_voice_owner = service == ServiceClass::SpeechHttp && has_uploaded_row(
        records[first].profiles(),
        service,
    );
    !requires_voice_owner || only_member_is_owner(records, voice_owner, trust, service, task)
}

/// The services and tasks, per trust domain, whose requests can be routed
/// without reading them.
pub fn build_content_blind_media_cohorts(
    records: &[WorkerRecord],
    voice_owner: Option<usize>,
) -> (cohorts: Vec<HomogeneousMediaCohort>)
    ensures
        media_keys(cohorts@).no_duplicates(),
        forall|key: CohortKey| #[trigger]
            media_keys(cohorts@).contains(key) <==> content_blind(
                roster_of(records@),
                voice_owner,
                key,
            ),
{
    let ghost roster = roster_of(records@);
    let mut result: Vec<HomogeneousMediaCohort> = Vec::new();
    let mut i: usize = 0;
    while i < records.len()
        invariant
            i <= records@.len(),
            roster == roster_of(records@),
            media_keys(result@).no_duplicates(),
            all_blind(roster, voice_owner, media_keys(result@)),
            rows_listed(roster, voice_owner, media_keys(result@), i as int, 0),
        decreases records@.len() - i,
    {
        let trust = records[i].trust_domain();
        let rows: &[ServiceProfile] = records[i].profiles();
        let mut row: usize = 0;
        while row < rows.len()
            invariant
                i < records@.len(),
                row <= rows@.len(),
                roster == roster_of(records@),
                rows@ == roster[i as int].profiles,
                trust@ == roster[i as int].trust,
                media_keys(result@).no_duplicates(),
                all_blind(roster, voice_owner, media_keys(result@)),
                rows_listed(roster, voice_owner, media_keys(result@), i as int, row as int),
            decreases rows@.len() - row,
        {
            let service = rows[row].service_class();
            let task = rows[row].speech_to_text_task();
            let ghost before = media_keys(result@);
            let ghost key = row_key(roster[i as int], row as int);
            if !lists_media(result.as_slice(), trust, service, task) && is_content_blind(
                records,
                voice_owner,
                trust,
                service,
                task,
            ) {
                result.push(
                    HomogeneousMediaCohort { trust_domain: trust.duplicate(), service, task },
                );
                proof {
                    let after = media_keys(result@);
                    assert(after =~= before.push(key));
                    assert forall|k: CohortKey| before.contains(k) implies #[trigger] after.contains(
                        k,
                    ) by {
                        let at = before.index_of(k);
                        assert(after[at] == k);
                    }
                    assert(after[before.len() as int] == key);
                    assert(after.contains(key));
                }
            }
            row += 1;
        }
        i += 1;
    }
    proof {
        let listed = media_keys(result@);
        assert forall|key: CohortKey| #[trigger] listed.contains(key) implies content_blind(
            roster,
            voice_owner,
            key,
        ) by {
            let k = listed.index_of(key);
            assert(content_blind(roster, voice_owner, listed[k]));
        }
        assert forall|key: CohortKey|
            content_blind(roster, voice_owner, key) implies #[trigger] listed.contains(key) by {
            lemma_first_member(roster, key, 0);
            let first = first_member(roster, key, 0);
            let row = choose|row: int|
                0 <= row < roster[first].profiles.len() && relevant(
                    #[trigger] roster[first].profiles[row],
                    key.service,
                    key.task,
                );
            assert(row_key(roster[first], row) == key);
        }
    }
    result
}

/// The service and task of a row, in the trust domain of its worker.
pub open spec fn row_key(worker: Registration, row: int) -> CohortKey {
    CohortKey {
        trust: worker.trust,
        service: worker.profiles[row].service(),
        task: worker.profiles[row].task(),
    }
}

/// Every listed key is content-blind.
spec fn all_blind(
    roster: Seq<Registration>,
    voice_owner: Option<usize>,
    listed: Seq<CohortKey>,
) -> bool {
    forall|k: int|
        0 <= k < listed.len() ==> content_blind(roster, voice_owner, #[trigger] listed[k])
}

/// Every content-blind key of a row before the given one is listed.
spec fn rows_listed(
    roster: Seq<Registration>,
    voice_owner: Option<usize>,
    listed: Seq<CohortKey>,
    worker: int,
    row: int,
) -> bool {
    forall|w: int, r: int|
        0 <= w < roster.len() && 0 <= r < roster[w].profiles.len() && (w < worker || (w == worker
            && r < row)) && content_blind(roster, voice_owner, #[trigger] row_key(roster[w], r))
            ==> listed.contains(row_key(roster[w], r))
}

} // verus!
