//! What the sidebar and the editor panel show: function names, the search
//! filter over the function list, the marker and class of each list item,
//! and the content of the editor for the selected tab.

use vstd::prelude::*;

use crate::hex::{
    hex_of, hex_value, is_hex_char, law_hex_of_denotes, law_hex_of_injective, push_hex,
    push_hex_padded, zero_pad,
};
use crate::hexdump::{dump_text, hex_dump};
use crate::state::{AppState, EditorTab, FunctionEntry};
use crate::text::{
    chars_of, lemma_occurs_in_empty, lemma_occurs_in_transitive, lowercase, occurs, occurs_in,
    to_lowercase,
};

verus! {

/// Most bytes of the binary that the hex tab shows.
pub const HEX_VIEW_LIMIT: usize = 4096;

/// The name under which a function is listed: its symbol name, or
/// `sub_` followed by its address in hexadecimal when it has none.
pub open spec fn display_name_of(address: u64, name: Seq<char>) -> Seq<char> {
    if name.len() == 0 {
        "sub_"@ + hex_of(address as nat)
    } else {
        name
    }
}

/// A named function is listed under its own name. An unnamed one is listed
/// as `sub_` followed by hexadecimal digits that denote its whole address.
pub proof fn law_display_name(address: u64, name: Seq<char>)
    ensures
        name.len() > 0 ==> display_name_of(address, name) == name,
        name.len() == 0 ==> ({
            let d = display_name_of(address, name);
            &&& d.len() > 4
            &&& d.take(4) == "sub_"@
            &&& forall|i: int| 4 <= i < d.len() ==> is_hex_char(#[trigger] d[i])
            &&& hex_value(d.skip(4)) == address
        }),
{
    reveal_strlit("sub_");
    law_hex_of_denotes(address as nat);
    if name.len() == 0 {
        let d = display_name_of(address, name);
        assert(d.take(4) =~= "sub_"@);
        assert(d.skip(4) =~= hex_of(address as nat));
        assert forall|i: int| 4 <= i < d.len() implies is_hex_char(#[trigger] d[i]) by {
            assert(d[i] == hex_of(address as nat)[i - 4]);
        }
    }
}

/// Unnamed functions at different addresses are listed under different names.
pub proof fn law_display_name_injective(a: u64, b: u64)
    requires
        display_name_of(a, Seq::<char>::empty()) == display_name_of(b, Seq::<char>::empty()),
    ensures
        a == b,
{
    reveal_strlit("sub_");
    let da = display_name_of(a, Seq::<char>::empty());
    assert(da.skip(4) =~= hex_of(a as nat));
    assert(display_name_of(b, Seq::<char>::empty()).skip(4) =~= hex_of(b as nat));
    law_hex_of_injective(a as nat, b as nat);
}

/// The name under which `f` is listed.
pub fn display_name(f: &FunctionEntry) -> (r: String)
    ensures
        r@ == display_name_of(f.address, f.name@),
{
    if f.name.as_str().is_empty() {
        let mut s = String::new();
        s.append("sub_");
        push_hex(&mut s, f.address);
        s
    } else {
        f.name.clone()
    }
}

/// How a function is marked in the list.
#[derive(Clone, Copy, PartialEq, Eq, Structural, Debug)]
pub enum FunctionKind {
    Export,
    Import,
    Code,
}

/// Exported functions are marked as such first; imports and thunks next;
/// everything else is code.
pub open spec fn kind_of(f: FunctionEntry) -> FunctionKind {
    if f.is_export {
        FunctionKind::Export
    } else if f.is_import || f.is_thunk {
        FunctionKind::Import
    } else {
        FunctionKind::Code
    }
}

/// An exported function is marked as export whatever else it is; a function
/// that is not exported is marked as import when it is an import or a thunk,
/// and as code otherwise.
pub proof fn law_kind(f: FunctionEntry)
    ensures
        f.is_export ==> kind_of(f) == FunctionKind::Export,
        !f.is_export && (f.is_import || f.is_thunk) ==> kind_of(f) == FunctionKind::Import,
        !f.is_export && !f.is_import && !f.is_thunk ==> kind_of(f) == FunctionKind::Code,
{
}

/// How `f` is marked in the list.
pub fn function_kind(f: &FunctionEntry) -> (r: FunctionKind)
    ensures
        r == kind_of(*f),
{
    if f.is_export {
        FunctionKind::Export
    } else if f.is_import || f.is_thunk {
        FunctionKind::Import
    } else {
        FunctionKind::Code
    }
}

impl FunctionKind {
    /// The style class of the marker dot.
    pub fn dot_class(self) -> (r: &'static str)
        ensures
            r@ == match self {
                FunctionKind::Export => "fn-dot is-export"@,
                FunctionKind::Import => "fn-dot is-import"@,
                FunctionKind::Code => "fn-dot is-code"@,
            },
    {
        match self {
            FunctionKind::Export => "fn-dot is-export",
            FunctionKind::Import => "fn-dot is-import",
            FunctionKind::Code => "fn-dot is-code",
        }
    }
}

/// The style class of a list item.
pub fn item_class(selected: bool) -> (r: &'static str)
    ensures
        r@ == if selected {
            "function-item is-selected"@
        } else {
            "function-item"@
        },
{
    if selected {
        "function-item is-selected"
    } else {
        "function-item"
    }
}

/// The style class of an editor tab.
pub fn tab_class(tab: EditorTab, active: EditorTab) -> (r: &'static str)
    ensures
        r@ == if tab == active {
            "tab is-active"@
        } else {
            "tab"@
        },
{
    if tab == active {
        "tab is-active"
    } else {
        "tab"
    }
}

/// A function matches a lower-cased query when the query is empty, or occurs
/// in the lower-cased name, or occurs in the hexadecimal address.
pub open spec fn search_hit(name_lower: Seq<char>, address: u64, query_lower: Seq<char>) -> bool {
    query_lower.len() == 0 || occurs_in(name_lower, query_lower) || occurs_in(
        hex_of(address as nat),
        query_lower,
    )
}

/// A function is listed exactly when the lower-cased query is empty, or
/// occurs somewhere in the whole lower-cased name, or occurs somewhere in the
/// hexadecimal rendering of the whole address.
pub proof fn law_listed(f: FunctionEntry, search: Seq<char>)
    ensures
        listed(f, search) <==> ({
            let q = lowercase(search);
            let name = lowercase(f.name@);
            let hex = hex_of(f.address as nat);
            ||| q.len() == 0
            ||| exists|i: int|
                0 <= i && i + q.len() <= name.len() && #[trigger] name.subrange(i, i + q.len()) == q
            ||| exists|i: int|
                0 <= i && i + q.len() <= hex.len() && #[trigger] hex.subrange(i, i + q.len()) == q
        }),
{
}

/// The breadcrumb shows the display name of the first listed function at the
/// selected address.
pub proof fn law_selected_name_found(functions: Seq<FunctionEntry>, addr: u64, i: int)
    requires
        0 <= i < functions.len(),
        functions[i].address == addr,
        forall|k: int| 0 <= k < i ==> #[trigger] functions[k].address != addr,
    ensures
        selected_name(functions, Some(addr)) == Some(display_name_of(addr, functions[i].name@)),
{
    lemma_first_at(functions, addr, i);
}

/// The breadcrumb is empty when nothing is selected or no listed function is
/// at the selected address.
pub proof fn law_selected_name_absent(functions: Seq<FunctionEntry>, current: Option<u64>)
    requires
        current matches Some(addr) ==> forall|k: int|
            0 <= k < functions.len() ==> #[trigger] functions[k].address != addr,
    ensures
        selected_name(functions, current) is None,
{
    if let Some(addr) = current {
        lemma_first_at(functions, addr, functions.len() as int);
    }
}

/// Whether `f` is listed for the search text `search` (both are lower-cased first).
pub open spec fn listed(f: FunctionEntry, search: Seq<char>) -> bool {
    search_hit(lowercase(f.name@), f.address, lowercase(search))
}

fn hit_chars(name_lower: &Vec<char>, address: u64, query_lower: &Vec<char>) -> (r: bool)
    ensures
        r == search_hit(name_lower@, address, query_lower@),
{
    if query_lower.len() == 0 {
        return true;
    }
    if occurs(name_lower, query_lower) {
        return true;
    }
    let mut hex = String::new();
    push_hex(&mut hex, address);
    let hex_chars = chars_of(hex.as_str());
    assert(hex_chars@ =~= hex_of(address as nat));
    occurs(&hex_chars, query_lower)
}

/// Whether a function with lower-cased name `name_lower` at `address`
/// matches the lower-cased query `query_lower`.
pub fn search_matches(name_lower: &str, address: u64, query_lower: &str) -> (r: bool)
    ensures
        r == search_hit(name_lower@, address, query_lower@),
{
    let name = chars_of(name_lower);
    let query = chars_of(query_lower);
    hit_chars(&name, address, &query)
}

/// The functions listed for the search text `search`, in their order.
pub fn filter_functions(functions: &Vec<FunctionEntry>, search: &str) -> (r: Vec<FunctionEntry>)
    ensures
        r@ == functions@.filter(|f: FunctionEntry| listed(f, search@)),
        search@.len() == 0 ==> r@ == functions@,
{
    let query_lower = to_lowercase(search);
    let query = chars_of(query_lower.as_str());
    let ghost pred = |f: FunctionEntry| listed(f, search@);
    let mut r: Vec<FunctionEntry> = Vec::new();
    let mut i: usize = 0;
    while i < functions.len()
        invariant
            i <= functions.len(),
            query@ == lowercase(search@),
            pred == (|f: FunctionEntry| listed(f, search@)),
            r@ == functions@.take(i as int).filter(pred),
        decreases functions.len() - i,
    {
        let f = &functions[i];
        let name_lower = to_lowercase(f.name.as_str());
        let name = chars_of(name_lower.as_str());
        let keep = hit_chars(&name, f.address, &query);
        if keep {
            r.push(f.clone());
        }
        proof {
            reveal_with_fuel(Seq::<_>::filter, 1);
            assert(functions@.take(i + 1).drop_last() =~= functions@.take(i as int));
        }
        i = i + 1;
    }
    assert(functions@.take(functions.len() as int) =~= functions@);
    proof {
        if search@.len() == 0 {
            law_empty_query_lists_all(functions@, search@);
        }
    }
    r
}

/// Filtering by a stricter predicate after a looser one is filtering by the
/// stricter predicate alone.
pub proof fn lemma_filter_stricter(
    s: Seq<FunctionEntry>,
    loose: spec_fn(FunctionEntry) -> bool,
    strict: spec_fn(FunctionEntry) -> bool,
)
    requires
        forall|f: FunctionEntry| #[trigger] strict(f) ==> loose(f),
    ensures
        s.filter(loose).filter(strict) == s.filter(strict),
    decreases s.len(),
{
    reveal_with_fuel(Seq::<_>::filter, 1);
    if s.len() > 0 {
        lemma_filter_stricter(s.drop_last(), loose, strict);
        let sub = s.drop_last().filter(loose);
        if loose(s.last()) {
            assert(sub.push(s.last()).drop_last() =~= sub);
            assert(sub.push(s.last()).last() == s.last());
        }
    }
}

/// Narrowing the search never adds an entry: when the lower-cased wider
/// query occurs in the lower-cased narrower one, every function listed for
/// the narrower query is listed for the wider one, and the list for the
/// narrower query is the list for the wider one with the entries that no
/// longer match taken out, in the same order.
pub proof fn law_narrowing_search(functions: Seq<FunctionEntry>, wide: Seq<char>, narrow: Seq<char>)
    requires
        occurs_in(lowercase(narrow), lowercase(wide)),
    ensures
        forall|f: FunctionEntry| #[trigger] listed(f, narrow) ==> listed(f, wide),
        functions.filter(|f: FunctionEntry| listed(f, narrow)) == functions.filter(
            |f: FunctionEntry| listed(f, wide),
        ).filter(|f: FunctionEntry| listed(f, narrow)),
{
    let nq = lowercase(narrow);
    let wq = lowercase(wide);
    assert forall|f: FunctionEntry| #[trigger] listed(f, narrow) implies listed(f, wide) by {
        let name = lowercase(f.name@);
        let hex = hex_of(f.address as nat);
        if nq.len() == 0 {
            assert(nq =~= Seq::<char>::empty());
            lemma_occurs_in_empty(wq);
        } else if occurs_in(name, nq) {
            lemma_occurs_in_transitive(name, nq, wq);
        } else {
            lemma_occurs_in_transitive(hex, nq, wq);
        }
    }
    let pn = |f: FunctionEntry| listed(f, narrow);
    let pw = |f: FunctionEntry| listed(f, wide);
    lemma_filter_stricter(functions, pw, pn);
}

/// A query that lower-cases to nothing lists every function, in order.
pub proof fn law_empty_query_lists_all(functions: Seq<FunctionEntry>, search: Seq<char>)
    requires
        lowercase(search).len() == 0,
    ensures
        functions.filter(|f: FunctionEntry| listed(f, search)) == functions,
    decreases functions.len(),
{
    reveal_with_fuel(Seq::<_>::filter, 1);
    if functions.len() > 0 {
        law_empty_query_lists_all(functions.drop_last(), search);
        assert(functions.drop_last().push(functions.last()) =~= functions);
    }
}

/// The address column of a list item: `0x` and sixteen hexadecimal digits.
pub open spec fn address_label_of(address: u64) -> Seq<char> {
    "0x"@ + zero_pad(hex_of(address as nat), 16)
}

/// The address column of a list item, as `format!("0x{:016x}", address)`.
pub fn address_label(address: u64) -> (r: String)
    ensures
        r@ == address_label_of(address),
{
    let mut s = String::new();
    s.append("0x");
    push_hex_padded(&mut s, address, 16);
    proof {
        assert(s@ =~= address_label_of(address));
    }
    s
}

/// The first function in `functions` at `addr`.
pub open spec fn first_at(functions: Seq<FunctionEntry>, addr: u64) -> Option<FunctionEntry>
    decreases functions.len(),
{
    if functions.len() == 0 {
        None
    } else if functions[0].address == addr {
        Some(functions[0])
    } else {
        first_at(functions.drop_first(), addr)
    }
}

/// The function found at `i` is the first at `addr` when none before it is.
proof fn lemma_first_at(functions: Seq<FunctionEntry>, addr: u64, i: int)
    requires
        0 <= i <= functions.len(),
        forall|k: int| 0 <= k < i ==> #[trigger] functions[k].address != addr,
    ensures
        i < functions.len() && functions[i].address == addr ==> first_at(functions, addr) == Some(
            functions[i],
        ),
        i == functions.len() ==> first_at(functions, addr) is None,
    decreases i,
{
    if i > 0 {
        lemma_first_at(functions.drop_first(), addr, i - 1);
    }
}

/// The name shown for the selected function: none when nothing is selected
/// or no listed function has the selected address.
pub open spec fn selected_name(functions: Seq<FunctionEntry>, current: Option<u64>) -> Option<
    Seq<char>,
> {
    match current {
        None => None,
        Some(addr) => match first_at(functions, addr) {
            None => None,
            Some(f) => Some(display_name_of(addr, f.name@)),
        },
    }
}

/// The name of the selected function, as the editor's breadcrumb shows it.
pub fn current_function_name(state: &AppState) -> (r: Option<String>)
    ensures
        r is Some == selected_name(state.functions@, state.current_fn_addr) is Some,
        r matches Some(s) ==> s@ == selected_name(state.functions@, state.current_fn_addr)->0,
{
    match state.current_fn_addr {
        None => None,
        Some(addr) => {
            let mut i: usize = 0;
            while i < state.functions.len()
                invariant
                    state.current_fn_addr == Some(addr),
                    i <= state.functions.len(),
                    forall|k: int| 0 <= k < i ==> #[trigger] state.functions@[k].address != addr,
                decreases state.functions.len() - i,
            {
                if state.functions[i].address == addr {
                    proof {
                        lemma_first_at(state.functions@, addr, i as int);
                    }
                    return Some(display_name(&state.functions[i]));
                }
                i = i + 1;
            }
            proof {
                lemma_first_at(state.functions@, addr, i as int);
            }
            None
        },
    }
}

/// What the editor panel shows.
#[derive(Debug)]
pub enum EditorContent {
    /// A decompilation is running.
    Decompiling,
    /// The decompiled pseudocode.
    Pseudocode(String),
    /// No pseudocode yet: a function is to be selected.
    NoFunctionSelected,
    /// The normalized intermediate representation.
    Nir(String),
    /// No intermediate representation is available.
    NirUnavailable,
    /// The hex view of the binary.
    HexView(String),
    /// No binary is loaded.
    NoBinary,
}

/// The content of the editor panel for `state`: the progress notice while a
/// decompilation runs, otherwise the selected tab's text or its placeholder.
pub fn editor_content(state: &AppState) -> (r: EditorContent)
    ensures
        state.is_decompiling ==> r is Decompiling,
        !state.is_decompiling ==> match state.active_tab {
            EditorTab::Pseudocode => match state.decompiled_code {
                Some(code) => r == EditorContent::Pseudocode(code),
                None => r is NoFunctionSelected,
            },
            EditorTab::Nir => match state.decompiled_nir {
                Some(nir) => r == EditorContent::Nir(nir),
                None => r is NirUnavailable,
            },
            EditorTab::Hex => match state.binary_data {
                Some(data) => r matches EditorContent::HexView(text) && text@ == dump_text(
                    data@,
                    HEX_VIEW_LIMIT as nat,
                ),
                None => r is NoBinary,
            },
        },
{
    if state.is_decompiling {
        return EditorContent::Decompiling;
    }
    match state.active_tab {
        EditorTab::Pseudocode => match &state.decompiled_code {
            Some(code) => EditorContent::Pseudocode(code.clone()),
            None => EditorContent::NoFunctionSelected,
        },
        EditorTab::Nir => match &state.decompiled_nir {
            Some(nir) => EditorContent::Nir(nir.clone()),
            None => EditorContent::NirUnavailable,
        },
        EditorTab::Hex => match &state.binary_data {
            Some(data) => EditorContent::HexView(hex_dump(data.as_slice(), HEX_VIEW_LIMIT)),
            None => EditorContent::NoBinary,
        },
    }
}

} // verus!
