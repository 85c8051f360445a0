//! The model inventory: every model that some worker executes, once, in order.

use vstd::prelude::*;
use vstd::utf8::encode_utf8;

use crate::error::WorkerPoolInvariant;
use crate::operations::render::{encode_strings, json_strings};
use crate::text::{keys, lemma_encoding_determines_text, string_of};
use crate::worker_pool::profile::WorkerConfig;

verus! {

/// The first byte string comes before the second: at the first place where
/// they differ it has the smaller byte, or has ended.
pub open spec fn bytes_before(left: Seq<u8>, right: Seq<u8>) -> bool {
    exists|at: int| #[trigger] differ_at(left, right, at)
}

/// The first byte string falls short of the second at the given place, and not earlier.
pub open spec fn differ_at(left: Seq<u8>, right: Seq<u8>, at: int) -> bool {
    &&& 0 <= at <= left.len()
    &&& at < right.len()
    &&& forall|i: int| 0 <= i < at ==> left[i] == right[i]
    &&& at < left.len() ==> left[at] < right[at]
}

/// The first text comes before the second, by the bytes of their encodings.
pub open spec fn before(left: Seq<char>, right: Seq<char>) -> bool {
    bytes_before(encode_utf8(left), encode_utf8(right))
}

/// Each text comes before all that follow it.
pub open spec fn increasing(texts: Seq<Seq<char>>) -> bool {
    forall|i: int, j: int|
        0 <= i < j < texts.len() ==> before(#[trigger] texts[i], #[trigger] texts[j])
}

/// The list holds each of the given texts once, in order.
pub open spec fn is_inventory(list: Seq<Seq<char>>, texts: Set<Seq<char>>) -> bool {
    &&& increasing(list)
    &&& forall|text: Seq<char>| #[trigger] list.contains(text) <==> texts.contains(text)
}

/// The given texts, each once, in order.
pub open spec fn inventory_of(texts: Set<Seq<char>>) -> Seq<Seq<char>> {
    choose|list: Seq<Seq<char>>| is_inventory(list, texts)
}

/// How two texts stand to each other.
enum Standing {
    Before,
    Same,
    After,
}

/// No byte string comes before itself, and of two different ones exactly one
/// comes before the other.
proof fn lemma_bytes_before_is_total(left: Seq<u8>, right: Seq<u8>)
    ensures
        !bytes_before(left, left),
        !(bytes_before(left, right) && bytes_before(right, left)),
        left != right ==> bytes_before(left, right) || bytes_before(right, left),
{
    if bytes_before(left, right) && bytes_before(right, left) {
        let a = choose|at: int| #[trigger] differ_at(left, right, at);
        let b = choose|at: int| #[trigger] differ_at(right, left, at);
        assert(a == b);
    }
    if left != right {
        lemma_first_difference(left, right, 0);
    }
}

/// Two different byte strings that agree before `from` differ at some place.
proof fn lemma_first_difference(left: Seq<u8>, right: Seq<u8>, from: int)
    requires
        0 <= from <= left.len(),
        from <= right.len(),
        forall|i: int| 0 <= i < from ==> left[i] == right[i],
        left != right,
    ensures
        bytes_before(left, right) || bytes_before(right, left),
    decreases left.len() - from,
{
    if from == left.len() {
        if from == right.len() {
            assert(left =~= right);
        }
        assert(differ_at(left, right, from));
    } else if from == right.len() {
        assert(differ_at(right, left, from));
    } else if left[from] < right[from] {
        assert(differ_at(left, right, from));
    } else if right[from] < left[from] {
        assert(differ_at(right, left, from));
    } else {
        lemma_first_difference(left, right, from + 1);
    }
}

/// Coming before is transitive.
proof fn lemma_before_is_transitive(a: Seq<u8>, b: Seq<u8>, c: Seq<u8>)
    requires
        bytes_before(a, b),
        bytes_before(b, c),
    ensures
        bytes_before(a, c),
{
    let i = choose|at: int| #[trigger] differ_at(a, b, at);
    let j = choose|at: int| #[trigger] differ_at(b, c, at);
    if i <= j {
        assert(differ_at(a, c, i));
    } else {
        assert(differ_at(a, c, j));
    }
}

/// How two byte strings stand to each other.
fn standing(left: &[u8], right: &[u8]) -> (outcome: Standing)
    ensures
        match outcome {
            Standing::Before => bytes_before(left@, right@),
            Standing::Same => left@ == right@,
            Standing::After => bytes_before(right@, left@),
        },
{
    let mut i: usize = 0;
    while i < left.len() && i < right.len()
        invariant
            i <= left@.len(),
            i <= right@.len(),
            forall|k: int| 0 <= k < i ==> left@[k] == right@[k],
        decreases left@.len() - i,
    {
        if left[i] < right[i] {
            assert(differ_at(left@, right@, i as int));
            return Standing::Before;
        }
        if right[i] < left[i] {
            assert(differ_at(right@, left@, i as int));
            return Standing::After;
        }
        i += 1;
    }
    if i < right.len() {
        assert(differ_at(left@, right@, i as int));
        return Standing::Before;
    }
    if i < left.len() {
        assert(differ_at(right@, left@, i as int));
        return Standing::After;
    }
    assert(left@ =~= right@);
    Standing::Same
}

/// Puts a text in its place, unless it is there.
fn insert_in_order(list: &mut Vec<String>, text: &str)
    requires
        increasing(keys(old(list)@)),
    ensures
        increasing(keys(final(list)@)),
        forall|one: Seq<char>| #[trigger]
            keys(final(list)@).contains(one) <==> keys(old(list)@).contains(one) || one == text@,
{
    let ghost given = keys(list@);
    let mut at: usize = 0;
    while at < list.len()
        invariant
            at <= list@.len(),
            keys(list@) == given,
            given == keys(old(list)@),
            increasing(given),
            forall|k: int| 0 <= k < at ==> before(#[trigger] given[k], text@),
        decreases list@.len() - at,
    {
        match standing(list[at].as_str().as_bytes(), text.as_bytes()) {
            Standing::Before => {},
            Standing::Same => {
                proof {
                    lemma_encoding_determines_text(given[at as int], text@);
                    assert(given[at as int] == text@);
                    assert(given.contains(text@));
                }
                return ;
            },
            Standing::After => {
                proof {
                    lemma_insertion(given, at as int, text@);
                }
                list.insert(at, text.to_owned());
                assert(keys(list@) =~= given.insert(at as int, text@));
                return ;
            },
        }
        at += 1;
    }
    proof {
        lemma_insertion(given, given.len() as int, text@);
    }
    list.push(text.to_owned());
    assert(keys(list@) =~= given.insert(given.len() as int, text@));
}

/// A text that is put between those before it and those after it keeps the order.
proof fn lemma_insertion(list: Seq<Seq<char>>, at: int, text: Seq<char>)
    requires
        increasing(list),
        0 <= at <= list.len(),
        forall|k: int| 0 <= k < at ==> before(#[trigger] list[k], text),
        at < list.len() ==> before(text, list[at]),
    ensures
        increasing(list.insert(at, text)),
        forall|one: Seq<char>| #[trigger]
            list.insert(at, text).contains(one) <==> list.contains(one) || one == text,
{
    let after = list.insert(at, text);
    assert forall|i: int, j: int| 0 <= i < j < after.len() implies before(
        #[trigger] after[i],
        #[trigger] after[j],
    ) by {
        if i == at && j > at + 1 {
            lemma_before_is_transitive(
                encode_utf8(text),
                encode_utf8(list[at]),
                encode_utf8(list[j - 1]),
            );
        }
    }
    assert forall|one: Seq<char>| list.contains(one) || one == text implies #[trigger] after.contains(
        one,
    ) by {
        if one == text {
            assert(after[at] == text);
        } else {
            let k = list.index_of(one);
            if k < at {
                assert(after[k] == one);
            } else {
                assert(after[k + 1] == one);
            }
        }
    }
    assert forall|one: Seq<char>| #[trigger] after.contains(one) implies list.contains(one) || one
        == text by {
        let k = after.index_of(one);
        if k < at {
            assert(list[k] == one);
        } else if k > at {
            assert(list[k - 1] == one);
        }
    }
}

/// The inventory of a set of models is unique: neither the order in which
/// models are configured nor how often they are named can change it.
pub proof fn law_inventory_is_unique(list: Seq<Seq<char>>, texts: Set<Seq<char>>)
    requires
        is_inventory(list, texts),
    ensures
        is_inventory(inventory_of(texts), texts),
        list == inventory_of(texts),
{
    let chosen = inventory_of(texts);
    lemma_increasing_lists_agree(list, chosen, list.len());
    lemma_increasing_lists_agree(chosen, list, chosen.len());
    assert(list =~= chosen);
}

/// Each of the given texts once, in order.
pub fn inventory(texts: &[String]) -> (list: Vec<String>)
    ensures
        keys(list@) == inventory_of(keys(texts@).to_set()),
        is_inventory(keys(list@), keys(texts@).to_set()),
{
    let ghost given = keys(texts@);
    let mut list: Vec<String> = Vec::new();
    let mut i: usize = 0;
    while i < texts.len()
        invariant
            i <= texts@.len(),
            given == keys(texts@),
            increasing(keys(list@)),
            forall|one: Seq<char>| #[trigger]
                keys(list@).contains(one) <==> given.take(i as int).contains(one),
        decreases texts@.len() - i,
    {
        let ghost so_far = given.take(i as int);
        insert_in_order(&mut list, texts[i].as_str());
        proof {
            assert(given.take(i + 1) =~= so_far.push(given[i as int]));
            assert forall|one: Seq<char>| #[trigger] given.take(i + 1).contains(one) <==> (
            so_far.contains(one) || one == given[i as int]) by {
                if so_far.contains(one) {
                    let k = so_far.index_of(one);
                    assert(given.take(i + 1)[k] == one);
                }
                assert(given.take(i + 1)[i as int] == given[i as int]);
            }
        }
        i += 1;
    }
    proof {
        assert(given.take(i as int) =~= given);
        law_inventory_is_unique(keys(list@), given.to_set());
    }
    list
}

/// Two increasing lists of the same texts agree place by place.
proof fn lemma_increasing_lists_agree(left: Seq<Seq<char>>, right: Seq<Seq<char>>, count: nat)
    requires
        increasing(left),
        increasing(right),
        forall|text: Seq<char>| left.contains(text) <==> right.contains(text),
        count <= left.len(),
    ensures
        count <= right.len(),
        forall|i: int| 0 <= i < count ==> left[i] == right[i],
    decreases count,
{
    if count > 0 {
        let last = count - 1;
        lemma_increasing_lists_agree(left, right, last as nat);
        let here = left[last];
        assert(left.contains(here));
        let there = right.index_of(here);
        assert(right[there] == here);
        if there < last {
            assert(left[there] == here);
            assert(before(left[there], left[last]));
            lemma_bytes_before_is_total(encode_utf8(here), encode_utf8(here));
        }
        if there > last {
            let smaller = right[last];
            assert(right.contains(smaller));
            let place = left.index_of(smaller);
            assert(left[place] == smaller);
            assert(before(right[last], right[there]));
            if place > last {
                assert(before(left[last], left[place]));
                lemma_bytes_before_is_total(encode_utf8(here), encode_utf8(smaller));
            } else if place < last {
                assert(right[place] == smaller);
                assert(before(right[place], right[last]));
                lemma_bytes_before_is_total(encode_utf8(smaller), encode_utf8(smaller));
            } else {
                lemma_bytes_before_is_total(encode_utf8(here), encode_utf8(here));
            }
        }
    }
}

/// One entry of the inventory, from the JSON string of its model.
pub open spec fn model_card(id: Seq<char>) -> Seq<char> {
    "{\"id\":"@ + id
        + ",\"object\":\"model\",\"created\":0,\"owned_by\":\"sglang-omni\",\"permission\":[{\"id\":\"modelperm-default\",\"object\":\"model_permission\",\"allow_create_engine\":false,\"allow_sampling\":true,\"allow_logprobs\":true}],\"root\":"@
        + id + "}"@
}

/// The first `count` entries, with commas between them.
pub open spec fn model_cards(ids: Seq<Seq<char>>, count: nat) -> Seq<char>
    decreases count,
{
    if count == 0 {
        Seq::empty()
    } else if count == 1 {
        model_card(ids[0])
    } else {
        model_cards(ids, (count - 1) as nat) + ","@ + model_card(ids[count - 1])
    }
}

/// The inventory as JSON, from the JSON strings of its models.
pub open spec fn model_list(ids: Seq<Seq<char>>) -> Seq<char> {
    "{\"object\":\"list\",\"data\":["@ + model_cards(ids, ids.len()) + "]}"@
}

/// The inventory as JSON, from the JSON strings of its models.
pub fn frame_models(ids: &[String]) -> (json: String)
    ensures
        json@ == model_list(keys(ids@)),
{
    let ghost given = keys(ids@);
    let mut json = String::new();
    json.append("{\"object\":\"list\",\"data\":[");
    let ghost start = json@;
    let mut i: usize = 0;
    while i < ids.len()
        invariant
            i <= ids@.len(),
            given == keys(ids@),
            json@ == start + model_cards(given, i as nat),
        decreases ids@.len() - i,
    {
        let ghost so_far = json@;
        if i > 0 {
            json.append(",");
        }
        json.append("{\"id\":");
        json.append(ids[i].as_str());
        json.append(
            ",\"object\":\"model\",\"created\":0,\"owned_by\":\"sglang-omni\",\"permission\":[{\"id\":\"modelperm-default\",\"object\":\"model_permission\",\"allow_create_engine\":false,\"allow_sampling\":true,\"allow_logprobs\":true}],\"root\":",
        );
        json.append(ids[i].as_str());
        json.append("}");
        proof {
            if i == 0 {
                assert(json@ =~= start + model_cards(given, 1));
            } else {
                assert(json@ =~= start + model_cards(given, i as nat + 1));
            }
        }
        i += 1;
    }
    json.append("]}");
    proof {
        assert(start =~= "{\"object\":\"list\",\"data\":["@);
        assert(json@ =~= model_list(given));
    }
    json
}

/// The inventory of the given models as JSON.
pub open spec fn models_json(texts: Set<Seq<char>>) -> Seq<char> {
    model_list(json_strings(inventory_of(texts)))
}

/// The inventory of the given models as JSON.
pub fn render_models(texts: &[String]) -> (outcome: Result<String, WorkerPoolInvariant>)
    ensures
        outcome is Ok,
        outcome->Ok_0@ == models_json(keys(texts@).to_set()),
{
    let list = inventory(texts);
    match encode_strings(list.as_slice()) {
        Some(ids) => Ok(frame_models(ids.as_slice())),
        None => Err(WorkerPoolInvariant),
    }
}

/// The models that the workers name, in their rows and as their defaults.
pub open spec fn named_models(workers: Seq<WorkerConfig>) -> Set<Seq<char>> {
    Set::new(
        |model: Seq<char>|
            exists|w: int| 0 <= w < workers.len() && #[trigger] names_model(workers[w], model),
    )
}

/// The worker names the model, in a row or as its default.
pub open spec fn names_model(worker: WorkerConfig, model: Seq<char>) -> bool {
    ||| string_of(worker.default_model_id) == Some(model)
    ||| exists|r: int|
        0 <= r < worker.service_profiles@.len() && lists_model(
            (#[trigger] worker.service_profiles@[r]).models(),
            model,
        )
}

/// The list, if there is one, holds the model.
pub open spec fn lists_model(models: Option<Seq<Seq<char>>>, model: Seq<char>) -> bool {
    models is Some && models->Some_0.contains(model)
}

/// Adds texts to a list.
fn add_all(list: &mut Vec<String>, texts: &[String])
    ensures
        keys(final(list)@) == keys(old(list)@) + keys(texts@),
{
    let ghost before_all = keys(list@);
    let mut i: usize = 0;
    while i < texts.len()
        invariant
            i <= texts@.len(),
            keys(list@) == before_all + keys(texts@).take(i as int),
        decreases texts@.len() - i,
    {
        let ghost was = keys(list@);
        list.push(texts[i].clone());
        assert(keys(list@) =~= was.push(keys(texts@)[i as int]));
        assert(keys(list@) =~= before_all + keys(texts@).take(i + 1));
        i += 1;
    }
    assert(keys(texts@).take(i as int) =~= keys(texts@));
}

/// All texts of the given lists, then the given texts.
pub open spec fn flattened(lists: Seq<&[String]>, count: nat) -> Seq<Seq<char>>
    decreases count,
{
    if count == 0 {
        Seq::empty()
    } else {
        flattened(lists, (count - 1) as nat) + keys(lists[count - 1]@)
    }
}

/// The given texts.
pub open spec fn borrowed(texts: Seq<&str>) -> Seq<Seq<char>> {
    Seq::new(texts.len(), |i: int| texts[i]@)
}

/// The inventory of the models of rows and the default models, as JSON.
pub fn render_model_sources(profile_ids: &[&[String]], defaults: &[&str]) -> (outcome: Result<
    String,
    WorkerPoolInvariant,
>)
    ensures
        outcome is Ok,
        outcome->Ok_0@ == models_json(
            (flattened(profile_ids@, profile_ids@.len()) + borrowed(defaults@)).to_set(),
        ),
{
    let mut texts: Vec<String> = Vec::new();
    let mut i: usize = 0;
    while i < profile_ids.len()
        invariant
            i <= profile_ids@.len(),
            keys(texts@) == flattened(profile_ids@, i as nat),
        decreases profile_ids@.len() - i,
    {
        add_all(&mut texts, profile_ids[i]);
        i += 1;
    }
    let ghost rows = keys(texts@);
    let mut j: usize = 0;
    while j < defaults.len()
        invariant
            j <= defaults@.len(),
            keys(texts@) == rows + borrowed(defaults@).take(j as int),
        decreases defaults@.len() - j,
    {
        let ghost was = keys(texts@);
        texts.push(defaults[j].to_owned());
        assert(keys(texts@) =~= was.push(borrowed(defaults@)[j as int]));
        assert(keys(texts@) =~= rows + borrowed(defaults@).take(j + 1));
        j += 1;
    }
    assert(borrowed(defaults@).take(j as int) =~= borrowed(defaults@));
    render_models(texts.as_slice())
}

/// The texts of the first `count` lists are those of some list.
proof fn lemma_flattened(lists: Seq<&[String]>, count: nat, text: Seq<char>)
    requires
        count <= lists.len(),
    ensures
        flattened(lists, count).contains(text) <==> exists|i: int|
            0 <= i < count && keys((#[trigger] lists[i])@).contains(text),
    decreases count,
{
    if count > 0 {
        let last = (count - 1) as nat;
        lemma_flattened(lists, last, text);
        let rest = flattened(lists, last);
        let here = keys(lists[last as int]@);
        let all = flattened(lists, count);
        if rest.contains(text) {
            let k = rest.index_of(text);
            assert(all[k] == text);
        }
        if here.contains(text) {
            let k = here.index_of(text);
            assert(all[rest.len() + k] == text);
        }
        if all.contains(text) {
            let k = all.index_of(text);
            if k < rest.len() {
                assert(rest[k] == text);
            } else {
                assert(here[k - rest.len()] == text);
            }
        }
    }
}

/// The models of the rows of the workers, as lists.
fn row_models<'a>(workers: &'a [WorkerConfig]) -> (lists: Vec<&'a [String]>)
    ensures
        forall|text: Seq<char>|
            (exists|i: int| 0 <= i < lists@.len() && keys((#[trigger] lists@[i])@).contains(text))
                <==> #[trigger] row_names(workers@, workers@.len() as int, 0, text),
{
    let mut lists: Vec<&'a [String]> = Vec::new();
    let mut w: usize = 0;
    while w < workers.len()
        invariant
            w <= workers@.len(),
            forall|text: Seq<char>|
                (exists|i: int|
                    0 <= i < lists@.len() && keys((#[trigger] lists@[i])@).contains(text))
                    <==> #[trigger] row_names(workers@, w as int, 0, text),
        decreases workers@.len() - w,
    {
        let rows = &workers[w].service_profiles;
        let mut r: usize = 0;
        while r < rows.len()
            invariant
                w < workers@.len(),
                *rows == workers@[w as int].service_profiles,
                r <= rows@.len(),
                forall|text: Seq<char>|
                    (exists|i: int|
                        0 <= i < lists@.len() && keys((#[trigger] lists@[i])@).contains(text))
                        <==> #[trigger] row_names(workers@, w as int, r as int, text),
            decreases rows@.len() - r,
        {
            let ghost was = lists@;
            let ghost here = rows@[r as int].models();
            if let Some(models) = rows[r].model_ids() {
                lists.push(models);
            }
            proof {
                assert forall|text: Seq<char>|
                    (exists|i: int|
                        0 <= i < lists@.len() && keys((#[trigger] lists@[i])@).contains(text))
                        <==> #[trigger] row_names(workers@, w as int, r + 1, text) by {
                    assert(row_names(workers@, w as int, r + 1, text) <==> row_names(
                        workers@,
                        w as int,
                        r as int,
                        text,
                    ) || lists_model(here, text)) by {
                        lemma_row_names_step(workers@, w as int, r as int, text);
                    }
                    if exists|i: int|
                        0 <= i < was.len() && keys((#[trigger] was[i])@).contains(text) {
                        let i = choose|i: int|
                            0 <= i < was.len() && keys((#[trigger] was[i])@).contains(text);
                        assert(lists@[i] == was[i]);
                    }
                    if lists_model(here, text) {
                        assert(keys(lists@[was.len() as int]@).contains(text));
                    }
                    if exists|i: int|
                        0 <= i < lists@.len() && keys((#[trigger] lists@[i])@).contains(text) {
                        let i = choose|i: int|
                            0 <= i < lists@.len() && keys((#[trigger] lists@[i])@).contains(text);
                        if i < was.len() {
                            assert(keys(was[i]@).contains(text));
                        }
                    }
                }
            }
            r += 1;
        }
        proof {
            assert forall|text: Seq<char>| #[trigger]
                row_names(workers@, w + 1, 0, text) <==> row_names(
                    workers@,
                    w as int,
                    r as int,
                    text,
                ) by {
                lemma_row_names_next(workers@, w as int, text);
            }
        }
        w += 1;
    }
    lists
}

/// A row before the given place lists the model.
pub open spec fn row_names(
    workers: Seq<WorkerConfig>,
    worker: int,
    row: int,
    model: Seq<char>,
) -> bool {
    exists|w: int, r: int|
        0 <= w < workers.len() && 0 <= r < workers[w].service_profiles@.len() && (w < worker || (w
            == worker && r < row)) && lists_model(
            (#[trigger] workers[w].service_profiles@[r]).models(),
            model,
        )
}

/// One more row.
proof fn lemma_row_names_step(
    workers: Seq<WorkerConfig>,
    worker: int,
    row: int,
    model: Seq<char>,
)
    requires
        0 <= worker < workers.len(),
        0 <= row < workers[worker].service_profiles@.len(),
    ensures
        row_names(workers, worker, row + 1, model) <==> row_names(workers, worker, row, model)
            || lists_model(workers[worker].service_profiles@[row].models(), model),
{
    if row_names(workers, worker, row + 1, model) {
        let (w, r) = choose|w: int, r: int|
            0 <= w < workers.len() && 0 <= r < workers[w].service_profiles@.len() && (w < worker
                || (w == worker && r < row + 1)) && lists_model(
                (#[trigger] workers[w].service_profiles@[r]).models(),
                model,
            );
        if !(w == worker && r == row) {
            assert(row_names(workers, worker, row, model));
        }
    }
}

/// After all rows of a worker come those of the next.
proof fn lemma_row_names_next(workers: Seq<WorkerConfig>, worker: int, model: Seq<char>)
    requires
        0 <= worker < workers.len(),
    ensures
        row_names(workers, worker + 1, 0, model) <==> row_names(
            workers,
            worker,
            workers[worker].service_profiles@.len() as int,
            model,
        ),
{
}

/// The default models of the workers.
fn default_models<'a>(workers: &'a [WorkerConfig]) -> (defaults: Vec<&'a str>)
    ensures
        forall|text: Seq<char>| #[trigger]
            borrowed(defaults@).contains(text) <==> exists|w: int|
                0 <= w < workers@.len() && string_of((#[trigger] workers@[w]).default_model_id)
                    == Some(text),
{
    let mut defaults: Vec<&'a str> = Vec::new();
    let mut w: usize = 0;
    while w < workers.len()
        invariant
            w <= workers@.len(),
            forall|text: Seq<char>| #[trigger]
                borrowed(defaults@).contains(text) <==> exists|k: int|
                    0 <= k < w && string_of((#[trigger] workers@[k]).default_model_id) == Some(text),
        decreases workers@.len() - w,
    {
        let ghost was = borrowed(defaults@);
        if let Some(model) = &workers[w].default_model_id {
            defaults.push(model.as_str());
            proof {
                assert(borrowed(defaults@) =~= was.push(model@));
                assert forall|text: Seq<char>| #[trigger]
                    borrowed(defaults@).contains(text) <==> was.contains(text) || text == model@ by {
                    if was.contains(text) {
                        let k = was.index_of(text);
                        assert(borrowed(defaults@)[k] == text);
                    }
                    assert(borrowed(defaults@)[was.len() as int] == model@);
                }
            }
        }
        w += 1;
    }
    defaults
}

/// The inventory of all models that the workers name, as JSON.
pub fn render_worker_models(workers: &[WorkerConfig]) -> (outcome: Result<
    String,
    WorkerPoolInvariant,
>)
    ensures
        outcome is Ok,
        outcome->Ok_0@ == models_json(named_models(workers@)),
{
    let lists = row_models(workers);
    let defaults = default_models(workers);
    proof {
        let texts = flattened(lists@, lists@.len()) + borrowed(defaults@);
        assert forall|text: Seq<char>| texts.to_set().contains(text) <==> named_models(
            workers@,
        ).contains(text) by {
            lemma_named(workers@, lists@, defaults@, text);
        }
        assert(texts.to_set() =~= named_models(workers@));
    }
    render_model_sources(lists.as_slice(), defaults.as_slice())
}

/// A model is named exactly if a row or a default names it.
proof fn lemma_named(
    workers: Seq<WorkerConfig>,
    lists: Seq<&[String]>,
    defaults: Seq<&str>,
    text: Seq<char>,
)
    requires
        (exists|i: int| 0 <= i < lists.len() && keys((#[trigger] lists[i])@).contains(text))
            <==> row_names(workers, workers.len() as int, 0, text),
        borrowed(defaults).contains(text) <==> exists|w: int|
            0 <= w < workers.len() && string_of((#[trigger] workers[w]).default_model_id) == Some(
                text,
            ),
    ensures
        (flattened(lists, lists.len()) + borrowed(defaults)).contains(text) <==> named_models(
            workers,
        ).contains(text),
{
    lemma_flattened(lists, lists.len(), text);
    let rows = flattened(lists, lists.len());
    let others = borrowed(defaults);
    let all = rows + others;
    if all.contains(text) {
        let k = all.index_of(text);
        if k < rows.len() {
            assert(rows[k] == text);
            let (w, r) = choose|w: int, r: int|
                0 <= w < workers.len() && 0 <= r < workers[w].service_profiles@.len() && (w
                    < workers.len() || (w == workers.len() && r < 0)) && lists_model(
                    (#[trigger] workers[w].service_profiles@[r]).models(),
                    text,
                );
            assert(names_model(workers[w], text));
        } else {
            assert(others[k - rows.len()] == text);
            let w = choose|w: int|
                0 <= w < workers.len() && string_of((#[trigger] workers[w]).default_model_id)
                    == Some(text);
            assert(names_model(workers[w], text));
        }
    }
    if named_models(workers).contains(text) {
        let w = choose|w: int| 0 <= w < workers.len() && #[trigger] names_model(workers[w], text);
        if string_of(workers[w].default_model_id) == Some(text) {
            let k = others.index_of(text);
            assert(all[rows.len() + k] == text);
        } else {
            let r = choose|r: int|
                0 <= r < workers[w].service_profiles@.len() && lists_model(
                    (#[trigger] workers[w].service_profiles@[r]).models(),
                    text,
                );
            assert(row_names(workers, workers.len() as int, 0, text));
            let k = rows.index_of(text);
            assert(all[k] == text);
        }
    }
}

} // verus!
