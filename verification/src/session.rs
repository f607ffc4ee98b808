//! Herdr's session file: the active workspace and tab, and the panes of the
//! tab.

use vstd::prelude::*;

use crate::cache::{alias_of, alias_reads_back};
use crate::json::{views, Json, JsonView};
use crate::order::texts;
use crate::tables::{ascending, NumberMap};
use crate::text::{
    chars_of, concat3, decimal, decimal_int, decimal_text, is_internal, is_internal_id, parse_i64,
    parsed_i64, same_text, signed_text, text_of,
};
use crate::wire::{parse_json, parsed};

verus! {

/// A member that counts from 0, as an index.
pub open spec fn index_at(json: JsonView, key: Seq<char>) -> usize {
    match json.unsigned_at(key) {
        Some(n) => n as usize,
        None => 0,
    }
}

/// The active workspace of a session and its active tab, or what is wrong.
pub open spec fn active_parts(data: JsonView) -> Result<(JsonView, JsonView), Seq<char>> {
    match data.items_at("workspaces"@) {
        None => Err("session.json has no workspaces array"@),
        Some(workspaces) => {
            let w = index_at(data, "active"@) as int;
            if w >= workspaces.len() {
                Err("active Herdr workspace not found"@)
            } else {
                match workspaces[w].items_at("tabs"@) {
                    None => Err("active Herdr workspace has no tabs array"@),
                    Some(tabs) => {
                        let t = index_at(workspaces[w], "active_tab"@) as int;
                        if t >= tabs.len() {
                            Err("active Herdr tab not found"@)
                        } else {
                            Ok((workspaces[w], tabs[t]))
                        }
                    },
                }
            }
        },
    }
}

fn read_index(json: &Json, key: &str) -> (r: usize)
    ensures
        r == index_at(json@, key@),
{
    match json.u64_at(key) {
        Some(n) => n as usize,
        None => 0,
    }
}

/// The active workspace of a session and its active tab.
pub fn select_active(data: &Json) -> (r: Result<(Json, Json), String>)
    ensures
        match r {
            Ok((workspace, tab)) => active_parts(data@) == Ok::<(JsonView, JsonView), Seq<char>>(
                (workspace@, tab@),
            ),
            Err(message) => active_parts(data@) == Err::<(JsonView, JsonView), Seq<char>>(message@),
        },
{
    let workspaces = match data.array_at("workspaces") {
        Some(workspaces) => workspaces,
        None => return Err("session.json has no workspaces array".to_owned()),
    };
    let w = read_index(data, "active");
    if w >= workspaces.len() {
        return Err("active Herdr workspace not found".to_owned());
    }
    let workspace = &workspaces[w];
    assert(views(workspaces@)[w as int] == workspace@);
    let tabs = match workspace.array_at("tabs") {
        Some(tabs) => tabs,
        None => return Err("active Herdr workspace has no tabs array".to_owned()),
    };
    let t = read_index(workspace, "active_tab");
    if t >= tabs.len() {
        return Err("active Herdr tab not found".to_owned());
    }
    let tab = &tabs[t];
    assert(views(tabs@)[t as int] == tab@);
    Ok((workspace.duplicate(), tab.duplicate()))
}

/// The active workspace and tab in the text of a session file, or what is
/// wrong.
pub open spec fn session_parts(file: Seq<char>, content: Seq<char>) -> Result<
    (JsonView, JsonView),
    Seq<char>,
> {
    match parsed(content) {
        Ok(data) => active_parts(data),
        Err(message) => Err("failed to parse "@ + file + ": "@ + message),
    }
}

/// The active workspace and tab in the text of the session file with the given
/// name.
pub fn active_workspace_and_tab(file: &str, content: &str) -> (r: Result<(Json, Json), String>)
    ensures
        match r {
            Ok((workspace, tab)) => session_parts(file@, content@) == Ok::<
                (JsonView, JsonView),
                Seq<char>,
            >((workspace@, tab@)),
            Err(message) => session_parts(file@, content@) == Err::<
                (JsonView, JsonView),
                Seq<char>,
            >(message@),
        },
{
    match parse_json(content) {
        Ok(data) => select_active(&data),
        Err(error) => {
            let mut message = concat3("failed to parse ", file, ": ");
            message.append(error.as_str());
            Err(message)
        },
    }
}

/// The number of a pane in its public id where the session gives none: one more
/// than the internal number, in 64 unsigned bits.
pub open spec fn default_number(internal: i64) -> nat {
    ((internal + 1) % 0x1_0000_0000_0000_0000) as nat
}

/// The number of a pane in its public id.
pub open spec fn public_number(numbers: Map<Seq<char>, JsonView>, internal: i64) -> nat {
    match JsonView::Object(numbers).unsigned_at(decimal_int(internal as int)) {
        Some(n) => n as nat,
        None => default_number(internal),
    }
}

/// The public id of a pane: the workspace's id and the pane's number.
pub open spec fn public_pane_id(
    workspace_id: Seq<char>,
    numbers: Map<Seq<char>, JsonView>,
    internal: i64,
) -> Seq<char> {
    workspace_id + ":p"@ + decimal(public_number(numbers, internal))
}

/// Whether a tab lists a pane with an internal number.
pub open spec fn lists_pane(panes: Map<Seq<char>, JsonView>, internal: i64) -> bool {
    exists|key: Seq<char>| #[trigger] panes.contains_key(key) && parsed_i64(key) == Some(internal)
}

/// The public ids of a tab's panes by internal number, or what is wrong.
pub open spec fn pane_mapping(workspace: JsonView, tab: JsonView) -> Result<
    Map<i64, Seq<char>>,
    Seq<char>,
> {
    match (
        workspace.text_at("id"@),
        tab.members_at("panes"@),
        workspace.members_at("public_pane_numbers"@),
    ) {
        (None, _, _) => Err("active Herdr workspace has no id"@),
        (Some(_), None, _) => Err("active Herdr tab has no panes object"@),
        (Some(_), Some(_), None) => Err("active Herdr workspace has no public_pane_numbers"@),
        (Some(id), Some(panes), Some(numbers)) => Ok(
            Map::new(
                |internal: i64| lists_pane(panes, internal),
                |internal: i64| public_pane_id(id, numbers, internal),
            ),
        ),
    }
}

fn default_pane_number(internal: i64) -> (r: u64)
    ensures
        r == default_number(internal),
{
    let next: i128 = internal as i128 + 1;
    if next >= 0 {
        next as u64
    } else {
        (next + 0x1_0000_0000_0000_0000) as u64
    }
}

/// The public ids of a tab's panes by internal number.
pub fn pane_public_mapping(workspace: &Json, tab: &Json) -> (r: Result<NumberMap<String>, String>)
    ensures
        match r {
            Ok(mapping) => pane_mapping(workspace@, tab@) == Ok::<Map<i64, Seq<char>>, Seq<char>>(
                mapping@,
            ),
            Err(message) => pane_mapping(workspace@, tab@) == Err::<
                Map<i64, Seq<char>>,
                Seq<char>,
            >(message@),
        },
{
    let workspace_id = match workspace.text_at("id") {
        Some(id) => id,
        None => return Err("active Herdr workspace has no id".to_owned()),
    };
    let keys = match tab.get("panes") {
        Some(panes) => match panes.keys() {
            Some(keys) => keys,
            None => return Err("active Herdr tab has no panes object".to_owned()),
        },
        None => return Err("active Herdr tab has no panes object".to_owned()),
    };
    let numbers = match workspace.get("public_pane_numbers") {
        Some(numbers) => match numbers {
            Json::Object(_) => numbers,
            _ => return Err("active Herdr workspace has no public_pane_numbers".to_owned()),
        },
        None => return Err("active Herdr workspace has no public_pane_numbers".to_owned()),
    };
    let ghost listed = tab@.members_at("panes"@)->0;
    let ghost table = workspace@.members_at("public_pane_numbers"@)->0;
    let mut out: NumberMap<String> = NumberMap::new();
    let mut i: usize = 0;
    while i < keys.len()
        invariant
            i <= keys.len(),
            workspace@.text_at("id"@) == Some(workspace_id@),
            numbers@ == JsonView::Object(table),
            forall|internal: i64| #[trigger]
                out@.contains_key(internal) <==> exists|k: int|
                    0 <= k < i && parsed_i64(#[trigger] texts(keys@)[k]) == Some(internal),
            forall|internal: i64| #[trigger]
                out@.contains_key(internal) ==> out@[internal] == public_pane_id(
                    workspace_id@,
                    table,
                    internal,
                ),
        decreases keys.len() - i,
    {
        let ghost before = out@;
        assert(texts(keys@)[i as int] == keys@[i as int]@);
        if let Some(internal) = parse_i64(keys[i].as_str()) {
            let digits = signed_text(internal);
            let number = match numbers.u64_at(digits.as_str()) {
                Some(number) => number,
                None => default_pane_number(internal),
            };
            let shown = decimal_text(number as u128);
            out.insert(internal, concat3(workspace_id.as_str(), ":p", shown.as_str()));
            proof {
                assert(out@[internal] == public_pane_id(workspace_id@, table, internal));
                assert forall|id: i64| #[trigger] out@.contains_key(id) <==> exists|k: int|
                    0 <= k < i + 1 && parsed_i64(#[trigger] texts(keys@)[k]) == Some(id) by {
                    if out@.contains_key(id) {
                        if id == internal {
                            assert(parsed_i64(texts(keys@)[i as int]) == Some(id));
                        } else {
                            assert(before.contains_key(id));
                            let k = choose|k: int|
                                0 <= k < i && parsed_i64(#[trigger] texts(keys@)[k]) == Some(id);
                            assert(parsed_i64(texts(keys@)[k]) == Some(id));
                        }
                    }
                    if exists|k: int|
                        0 <= k < i + 1 && parsed_i64(#[trigger] texts(keys@)[k]) == Some(id) {
                        let k = choose|k: int|
                            0 <= k < i + 1 && parsed_i64(#[trigger] texts(keys@)[k]) == Some(id);
                        if k < i {
                            assert(before.contains_key(id));
                        }
                    }
                }
            }
        }
        i = i + 1;
    }
    proof {
        let wanted = pane_mapping(workspace@, tab@)->Ok_0;
        assert forall|internal: i64| #[trigger] out@.contains_key(internal) <==> lists_pane(
            listed,
            internal,
        ) by {
            if out@.contains_key(internal) {
                let k = choose|k: int|
                    0 <= k < i && parsed_i64(#[trigger] texts(keys@)[k]) == Some(internal);
                assert(texts(keys@).contains(texts(keys@)[k]));
                assert(listed.contains_key(texts(keys@)[k]));
            }
            if lists_pane(listed, internal) {
                let key = choose|key: Seq<char>| #[trigger]
                    listed.contains_key(key) && parsed_i64(key) == Some(internal);
                assert(texts(keys@).contains(key));
                let k = choose|k: int| 0 <= k < texts(keys@).len() && texts(keys@)[k] == key;
                assert(parsed_i64(texts(keys@)[k]) == Some(internal));
            }
        }
        assert(out@ =~= wanted);
    }
    Ok(out)
}

/// One more than a number, in 64 unsigned bits.
pub open spec fn next_number(n: u64) -> nat {
    if n == u64::MAX {
        0
    } else {
        (n + 1) as nat
    }
}

/// The id of the active tab: the one that the environment gives, else the tab's
/// own, else the workspace's id and the tab's number counted from 1.
pub open spec fn seeded_tab_id(
    given: Option<Seq<char>>,
    workspace: JsonView,
    tab: JsonView,
) -> Result<Seq<char>, Seq<char>> {
    match (given, tab.text_at("tab_id"@), workspace.text_at("id"@)) {
        (Some(id), _, _) => Ok(id),
        (None, Some(id), _) => Ok(id),
        (None, None, Some(id)) => {
            let index = match workspace.unsigned_at("active_tab"@) {
                Some(n) => n,
                None => 0,
            };
            Ok(id + ":"@ + decimal(next_number(index)))
        },
        (None, None, None) => Err("active Herdr tab has no id"@),
    }
}

/// The id of the active tab, given the one in the environment.
pub fn seed_tab_id(given: Option<String>, workspace: &Json, tab: &Json) -> (r: Result<
    String,
    String,
>)
    ensures
        ({
            let named = match given {
                Some(id) => Some(id@),
                None => None,
            };
            match r {
                Ok(id) => seeded_tab_id(named, workspace@, tab@) == Ok::<Seq<char>, Seq<char>>(id@),
                Err(message) => seeded_tab_id(named, workspace@, tab@) == Err::<
                    Seq<char>,
                    Seq<char>,
                >(message@),
            }
        }),
{
    if let Some(id) = given {
        return Ok(id);
    }
    if let Some(id) = tab.text_at("tab_id") {
        return Ok(id.clone());
    }
    match workspace.text_at("id") {
        Some(id) => {
            let index = match workspace.u64_at("active_tab") {
                Some(n) => n,
                None => 0,
            };
            let number: u64 = if index == u64::MAX { 0 } else { index + 1 };
            let shown = decimal_text(number as u128);
            Ok(concat3(id.as_str(), ":", shown.as_str()))
        },
        None => Err("active Herdr tab has no id".to_owned()),
    }
}

/// The text behind the mark of an internal pane id, or the whole text where it
/// has none.
pub open spec fn without_mark(pane_id: Seq<char>) -> Seq<char> {
    if is_internal(pane_id) {
        pane_id.skip(2)
    } else {
        pane_id
    }
}

/// Whether a mapping gives a pane the public id, and none with a smaller
/// number.
pub open spec fn first_with_public(
    mapping: Map<i64, Seq<char>>,
    pane_id: Seq<char>,
    internal: i64,
) -> bool {
    &&& mapping.contains_key(internal)
    &&& mapping[internal] == pane_id
    &&& forall|other: i64| #[trigger]
        mapping.contains_key(other) && mapping[other] == pane_id ==> internal <= other
}

/// The number of the pane that an id names: by its public id first, then by the
/// number in an internal id.
pub open spec fn internal_of(pane_id: Seq<char>, mapping: Map<i64, Seq<char>>) -> Option<i64> {
    if exists|internal: i64| first_with_public(mapping, pane_id, internal) {
        Some(choose|internal: i64| first_with_public(mapping, pane_id, internal))
    } else {
        match parsed_i64(without_mark(pane_id)) {
            Some(internal) => if mapping.contains_key(internal) {
                Some(internal)
            } else {
                None
            },
            None => None,
        }
    }
}

fn strip_mark(pane_id: &str) -> (r: String)
    ensures
        r@ == without_mark(pane_id@),
{
    let chars = chars_of(pane_id);
    if !is_internal_id(pane_id) {
        return pane_id.to_owned();
    }
    let mut rest: Vec<char> = Vec::new();
    let mut i: usize = 2;
    while i < chars.len()
        invariant
            chars@ == pane_id@,
            2 <= i <= chars.len(),
            rest@ == pane_id@.subrange(2, i as int),
        decreases chars.len() - i,
    {
        rest.push(chars[i]);
        proof {
            assert(pane_id@.subrange(2, i + 1) =~= pane_id@.subrange(2, i as int).push(
                pane_id@[i as int],
            ));
        }
        i = i + 1;
    }
    proof {
        assert(pane_id@.subrange(2, i as int) =~= pane_id@.skip(2));
    }
    text_of(&rest)
}

/// The number of the pane that an id names.
pub fn internal_id_from_pane_id(pane_id: &str, mapping: &NumberMap<String>) -> (r: Option<i64>)
    ensures
        r == internal_of(pane_id@, mapping@),
{
    let keys = mapping.keys();
    let mut i: usize = 0;
    while i < keys.len()
        invariant
            i <= keys.len(),
            ascending(keys@),
            forall|key: i64| mapping@.contains_key(key) <==> #[trigger] keys@.contains(key),
            forall|k: int| 0 <= k < i ==> mapping@[#[trigger] keys@[k]] != pane_id@,
        decreases keys.len() - i,
    {
        let internal = keys[i];
        assert(keys@.contains(internal));
        if let Some(public) = mapping.get(internal) {
            if same_text(public.as_str(), pane_id) {
                proof {
                    assert forall|other: i64| #[trigger]
                        mapping@.contains_key(other) && mapping@[other] == pane_id@ implies internal
                        <= other by {
                        assert(keys@.contains(other));
                        let k = choose|k: int| 0 <= k < keys.len() && keys@[k] == other;
                        if k < i {
                            assert(mapping@[keys@[k]] != pane_id@);
                        }
                    }
                    assert(first_with_public(mapping@, pane_id@, internal));
                    let chosen = choose|n: i64| first_with_public(mapping@, pane_id@, n);
                    assert(first_with_public(mapping@, pane_id@, chosen));
                }
                return Some(internal);
            }
        }
        i = i + 1;
    }
    proof {
        assert forall|internal: i64| !first_with_public(mapping@, pane_id@, internal) by {
            if mapping@.contains_key(internal) {
                assert(keys@.contains(internal));
                let k = choose|k: int| 0 <= k < keys.len() && keys@[k] == internal;
                assert(mapping@[keys@[k]] != pane_id@);
            }
        }
    }
    let raw = strip_mark(pane_id);
    match parse_i64(raw.as_str()) {
        Some(internal) => match mapping.get(internal) {
            Some(_) => Some(internal),
            None => None,
        },
        None => None,
    }
}

/// The internal id of a mapped pane names that pane, unless it is some pane's
/// public id.
pub proof fn internal_id_names_its_pane(mapping: Map<i64, Seq<char>>, internal: i64)
    requires
        mapping.contains_key(internal),
        forall|other: i64| #[trigger]
            mapping.contains_key(other) ==> mapping[other] != alias_of(internal),
    ensures
        internal_of(alias_of(internal), mapping) == Some(internal),
{
    alias_reads_back(internal);
}

/// The public id of a mapped pane names that pane, where no other pane has it.
pub proof fn public_id_names_its_pane(mapping: Map<i64, Seq<char>>, internal: i64)
    requires
        mapping.contains_key(internal),
        forall|other: i64| #[trigger]
            mapping.contains_key(other) && mapping[other] == mapping[internal] ==> other
                == internal,
    ensures
        internal_of(mapping[internal], mapping) == Some(internal),
{
    assert(first_with_public(mapping, mapping[internal], internal));
    let chosen = choose|n: i64| first_with_public(mapping, mapping[internal], n);
    assert(first_with_public(mapping, mapping[internal], chosen));
}

/// Whatever pane an id names, it is one of the mapped ones.
pub proof fn named_pane_is_mapped(pane_id: Seq<char>, mapping: Map<i64, Seq<char>>)
    ensures
        internal_of(pane_id, mapping) matches Some(internal) ==> mapping.contains_key(internal),
{
}

} // verus!
