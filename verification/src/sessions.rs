//! What is read from Herdr's session file. The laws are stated over the members
//! of its documents and the places of its lists.

use vstd::prelude::*;

use crate::json::{JsonNumber, JsonView};
use crate::listings::{internal_ids_are_marked, is_marked};
use crate::session::{
    active_parts, first_with_public, internal_of, lists_pane, pane_mapping, seeded_tab_id,
    session_parts,
};
use crate::text::{
    decimal, decimal_int, digits_value, integer_value, is_digit, parsed_i64, unsigned_part,
};
use crate::wire::parsed;
use crate::wording::holds;

verus! {

/// Whether a document has a natural number under a key.
pub open spec fn counts(json: JsonView, key: Seq<char>, n: u64) -> bool {
    holds(json, key, JsonView::Number(JsonNumber::PosInt(n)))
}

/// Whether a document gives an index under a key: the natural number there, or 0
/// where there is none.
pub open spec fn indexes(json: JsonView, key: Seq<char>, index: int) -> bool {
    ||| exists|n: u64| #[trigger] counts(json, key, n) && n == index
    ||| index == 0 && forall|n: u64| !#[trigger] counts(json, key, n)
}

/// Whether a document has a list under a key.
pub open spec fn lists(json: JsonView, key: Seq<char>, items: Seq<JsonView>) -> bool {
    holds(json, key, JsonView::Array(items))
}

/// The active workspace is the one at the place that the session names, and the
/// active tab the one at the place that the workspace names. Where a place is not
/// named, it is the first.
pub proof fn active_ones_stand_at_their_places(
    data: JsonView,
    workspaces: Seq<JsonView>,
    n: int,
    tabs: Seq<JsonView>,
    m: int,
)
    requires
        lists(data, "workspaces"@, workspaces),
        indexes(data, "active"@, n),
        0 <= n < workspaces.len(),
        n <= usize::MAX,
        lists(workspaces[n], "tabs"@, tabs),
        indexes(workspaces[n], "active_tab"@, m),
        0 <= m < tabs.len(),
        m <= usize::MAX,
    ensures
        active_parts(data) == Ok::<(JsonView, JsonView), Seq<char>>((workspaces[n], tabs[m])),
{
    unnamed_index_is_zero(data, "active"@);
    unnamed_index_is_zero(workspaces[n], "active_tab"@);
}

proof fn unnamed_index_is_zero(json: JsonView, key: Seq<char>)
    ensures
        json.unsigned_at(key) matches Some(k) ==> counts(json, key, k),
        forall|n: u64| #[trigger] counts(json, key, n) ==> json.unsigned_at(key) == Some(n),
{
}

/// Where there is no list of workspaces, none at the named place, no list of tabs,
/// or none at the named place, the error says so.
pub proof fn missing_active_ones_are_told(
    data: JsonView,
    workspaces: Seq<JsonView>,
    n: int,
    tabs: Seq<JsonView>,
    m: int,
)
    ensures
        (forall|items: Seq<JsonView>| !#[trigger] lists(data, "workspaces"@, items))
            ==> active_parts(data) == Err::<(JsonView, JsonView), Seq<char>>(
            "session.json has no workspaces array"@,
        ),
        lists(data, "workspaces"@, workspaces) && indexes(data, "active"@, n) && n <= usize::MAX
            ==> {
            &&& n >= workspaces.len() ==> active_parts(data) == Err::<
                (JsonView, JsonView),
                Seq<char>,
            >("active Herdr workspace not found"@)
            &&& n < workspaces.len() && (forall|items: Seq<JsonView>|
                !#[trigger] lists(workspaces[n], "tabs"@, items)) ==> active_parts(data) == Err::<
                (JsonView, JsonView),
                Seq<char>,
            >("active Herdr workspace has no tabs array"@)
            &&& n < workspaces.len() && lists(workspaces[n], "tabs"@, tabs) && indexes(
                workspaces[n],
                "active_tab"@,
                m,
            ) && m <= usize::MAX && m >= tabs.len() ==> active_parts(data) == Err::<
                (JsonView, JsonView),
                Seq<char>,
            >("active Herdr tab not found"@)
        },
{
    unnamed_index_is_zero(data, "active"@);
    if let Some(items) = data.items_at("workspaces"@) {
        assert(lists(data, "workspaces"@, items));
    }
    if 0 <= n < workspaces.len() {
        unnamed_index_is_zero(workspaces[n], "active_tab"@);
        if let Some(items) = workspaces[n].items_at("tabs"@) {
            assert(lists(workspaces[n], "tabs"@, items));
        }
    }
}

/// The session's text is read as a document; where it is none, the error names the
/// file and what is wrong with it.
pub proof fn session_text_is_read(file: Seq<char>, content: Seq<char>)
    ensures
        parsed(content) matches Ok(data) ==> session_parts(file, content) == active_parts(data),
        parsed(content) matches Err(message) ==> session_parts(file, content) == Err::<
            (JsonView, JsonView),
            Seq<char>,
        >("failed to parse "@ + file + ": "@ + message),
{
}

/// A text of digits is worth ten times what stands before its last digit, and that
/// digit.
pub proof fn digits_count_in_tens(digits: Seq<char>, last: char)
    requires
        is_digit(last),
    ensures
        digits_value(Seq::<char>::empty()) == 0,
        digits_value(digits.push(last)) == 10 * digits_value(digits) + (last as int - '0' as int),
{
    assert(digits.push(last).drop_last() =~= digits);
}

/// No number but 0 is written with a 0 in front.
pub proof fn decimals_have_no_leading_zero(n: nat)
    ensures
        decimal(n).len() > 0,
        n > 0 ==> decimal(n)[0] != '0',
        n < 10 ==> decimal(n).len() == 1,
    decreases n,
{
    if n >= 10 {
        decimals_have_no_leading_zero(n / 10);
    }
}

/// Whether a text is made of one or more decimal digits.
pub open spec fn is_numeral(text: Seq<char>) -> bool {
    text.len() > 0 && forall|i: int| 0 <= i < text.len() ==> '0' <= #[trigger] text[i] <= '9'
}

/// Just the numerals, with a sign or without one, are read as numbers.
pub proof fn numerals_are_read(text: Seq<char>, n: i64)
    ensures
        is_numeral(text) && digits_value(text) == n ==> parsed_i64(text) == Some(n),
        is_numeral(text) && digits_value(text) == n ==> parsed_i64(seq!['+'] + text) == Some(n),
        is_numeral(text) && digits_value(text) == -n ==> parsed_i64(seq!['-'] + text) == Some(n),
        parsed_i64(text) == Some(n) ==> {
            ||| is_numeral(text) && digits_value(text) == n
            ||| text.len() > 0 && text[0] == '+' && is_numeral(text.skip(1)) && digits_value(
                text.skip(1),
            ) == n
            ||| text.len() > 0 && text[0] == '-' && is_numeral(text.skip(1)) && digits_value(
                text.skip(1),
            ) == -n
        },
{
    assert((seq!['+'] + text).skip(1) =~= text);
    assert((seq!['-'] + text).skip(1) =~= text);
    if is_numeral(text) {
        assert('0' <= text[0] <= '9');
        assert(unsigned_part(text) == text);
        assert forall|i: int| 0 <= i < text.len() implies is_digit(#[trigger] text[i]) by {
            assert('0' <= text[i] <= '9');
        }
    }
    if parsed_i64(text) == Some(n) {
        let digits = unsigned_part(text);
        assert(integer_value(text) is Some);
        assert forall|i: int| 0 <= i < digits.len() implies '0' <= #[trigger] digits[i] <= '9' by {
            assert(is_digit(digits[i]));
        }
        assert(is_numeral(digits));
    }
}

/// The panes of the session are those of the tab's panes that are numbers. Each
/// has the public id of its workspace and number: the number that the workspace
/// gives it, and else the one behind its own.
pub proof fn panes_have_public_ids(
    workspace: JsonView,
    tab: JsonView,
    id: Seq<char>,
    panes: Map<Seq<char>, JsonView>,
    numbers: Map<Seq<char>, JsonView>,
    pane: i64,
)
    requires
        holds(workspace, "id"@, JsonView::Text(id)),
        holds(tab, "panes"@, JsonView::Object(panes)),
        holds(workspace, "public_pane_numbers"@, JsonView::Object(numbers)),
    ensures
        pane_mapping(workspace, tab) matches Ok(mapping) && {
            &&& mapping.contains_key(pane) <==> exists|key: Seq<char>| #[trigger]
                panes.contains_key(key) && parsed_i64(key) == Some(pane)
            &&& mapping.contains_key(pane) ==> {
                &&& forall|n: u64| #[trigger]
                    counts(JsonView::Object(numbers), decimal_int(pane as int), n)
                        ==> mapping[pane] == id + ":p"@ + decimal(n as nat)
                &&& (forall|n: u64|
                    !#[trigger] counts(JsonView::Object(numbers), decimal_int(pane as int), n)) ==> {
                    &&& pane >= -1 ==> mapping[pane] == id + ":p"@ + decimal((pane + 1) as nat)
                    &&& pane < -1 ==> mapping[pane] == id + ":p"@ + decimal(
                        (pane + 1 + 0x1_0000_0000_0000_0000) as nat,
                    )
                }
            }
        },
{
    unnamed_index_is_zero(JsonView::Object(numbers), decimal_int(pane as int));
    let mapping = pane_mapping(workspace, tab)->Ok_0;
    assert(mapping.contains_key(pane) <==> lists_pane(panes, pane));
    wraps(pane + 1);
}

proof fn wraps(n: int)
    requires
        -0x8000_0000_0000_0000 <= n <= 0x8000_0000_0000_0000,
    ensures
        n >= 0 ==> n % 0x1_0000_0000_0000_0000 == n,
        n < 0 ==> n % 0x1_0000_0000_0000_0000 == n + 0x1_0000_0000_0000_0000,
{
}

/// A workspace without an id, a tab without panes, or a workspace without pane
/// numbers has no panes to map, and the error says which.
pub proof fn missing_panes_are_told(workspace: JsonView, tab: JsonView)
    ensures
        (forall|id: Seq<char>| !#[trigger] holds(workspace, "id"@, JsonView::Text(id)))
            ==> pane_mapping(workspace, tab) == Err::<Map<i64, Seq<char>>, Seq<char>>(
            "active Herdr workspace has no id"@,
        ),
        (exists|id: Seq<char>| #[trigger] holds(workspace, "id"@, JsonView::Text(id))) && (forall|
            panes: Map<Seq<char>, JsonView>,
        |
            !#[trigger] holds(tab, "panes"@, JsonView::Object(panes))) ==> pane_mapping(
            workspace,
            tab,
        ) == Err::<Map<i64, Seq<char>>, Seq<char>>("active Herdr tab has no panes object"@),
        (exists|id: Seq<char>| #[trigger] holds(workspace, "id"@, JsonView::Text(id))) && (exists|
            panes: Map<Seq<char>, JsonView>,
        |
            #[trigger] holds(tab, "panes"@, JsonView::Object(panes))) && (forall|
            numbers: Map<Seq<char>, JsonView>,
        |
            !#[trigger] holds(workspace, "public_pane_numbers"@, JsonView::Object(numbers)))
            ==> pane_mapping(workspace, tab) == Err::<Map<i64, Seq<char>>, Seq<char>>(
            "active Herdr workspace has no public_pane_numbers"@,
        ),
{
    if let Some(id) = workspace.text_at("id"@) {
        assert(holds(workspace, "id"@, JsonView::Text(id)));
    }
    if let Some(panes) = tab.members_at("panes"@) {
        assert(holds(tab, "panes"@, JsonView::Object(panes)));
    }
    if let Some(numbers) = workspace.members_at("public_pane_numbers"@) {
        assert(holds(workspace, "public_pane_numbers"@, JsonView::Object(numbers)));
    }
}

/// A tab goes by the id that is given, else by its own, else by its workspace's id
/// and the number behind its index; where there is none of these, it has no id.
pub proof fn tabs_have_ids(
    given: Option<Seq<char>>,
    workspace: JsonView,
    tab: JsonView,
    id: Seq<char>,
    index: u64,
)
    ensures
        given == Some(id) ==> seeded_tab_id(given, workspace, tab) == Ok::<Seq<char>, Seq<char>>(id),
        given is None && holds(tab, "tab_id"@, JsonView::Text(id)) ==> seeded_tab_id(
            given,
            workspace,
            tab,
        ) == Ok::<Seq<char>, Seq<char>>(id),
        given is None && (forall|own: Seq<char>|
            !#[trigger] holds(tab, "tab_id"@, JsonView::Text(own))) ==> {
            &&& holds(workspace, "id"@, JsonView::Text(id)) && indexes(
                workspace,
                "active_tab"@,
                index as int,
            ) && index < u64::MAX ==> seeded_tab_id(given, workspace, tab) == Ok::<
                Seq<char>,
                Seq<char>,
            >(id + ":"@ + decimal((index + 1) as nat))
            &&& holds(workspace, "id"@, JsonView::Text(id)) && indexes(
                workspace,
                "active_tab"@,
                u64::MAX as int,
            ) ==> seeded_tab_id(given, workspace, tab) == Ok::<Seq<char>, Seq<char>>(
                id + ":"@ + decimal(0),
            )
            &&& (forall|other: Seq<char>|
                !#[trigger] holds(workspace, "id"@, JsonView::Text(other))) ==> seeded_tab_id(
                given,
                workspace,
                tab,
            ) == Err::<Seq<char>, Seq<char>>("active Herdr tab has no id"@)
        },
{
    unnamed_index_is_zero(workspace, "active_tab"@);
    if let Some(own) = tab.text_at("tab_id"@) {
        assert(holds(tab, "tab_id"@, JsonView::Text(own)));
    }
    if let Some(other) = workspace.text_at("id"@) {
        assert(holds(workspace, "id"@, JsonView::Text(other)));
    }
}

/// An id names the first mapped pane whose public id it is. Where it is no pane's
/// public id, it names the mapped pane whose number stands in it, behind the mark
/// where it has one; where there is none, it names none.
pub proof fn ids_name_mapped_panes(id: Seq<char>, mapping: Map<i64, Seq<char>>, pane: i64)
    ensures
        mapping.contains_key(pane) && mapping[pane] == id && (forall|other: i64| #[trigger]
            mapping.contains_key(other) && mapping[other] == id ==> pane <= other) ==> internal_of(
            id,
            mapping,
        ) == Some(pane),
        (forall|other: i64| #[trigger] mapping.contains_key(other) ==> mapping[other] != id) ==> {
            &&& is_marked(id) ==> (internal_of(id, mapping) == Some(pane) <==> mapping.contains_key(
                pane,
            ) && parsed_i64(id.skip(2)) == Some(pane))
            &&& !is_marked(id) ==> (internal_of(id, mapping) == Some(pane) <==> mapping.contains_key(
                pane,
            ) && parsed_i64(id) == Some(pane))
        },
{
    internal_ids_are_marked(id);
    if mapping.contains_key(pane) && mapping[pane] == id && (forall|other: i64| #[trigger]
        mapping.contains_key(other) && mapping[other] == id ==> pane <= other) {
        assert(first_with_public(mapping, id, pane));
        let chosen = choose|n: i64| first_with_public(mapping, id, n);
        assert(first_with_public(mapping, id, chosen));
        assert(mapping.contains_key(chosen));
    }
}

} // verus!
