//! The symbol table: every symbol with its address once it is known, and
//! until then the locations of the lines that wait for it.
use vstd::prelude::*;
use vstd::string::*;
use crate::err::{agrees, fault_about, AsmError, ErrorKind, Fault};
use crate::pattern::{is_match, regex_is_match};
use crate::text::{hex_field, numeral, push_hex, push_numeral, str_eq};

verus! {

/// The shape of a symbol: upper-case letters and digits, a letter first.
pub const LEGAL_SYMBOL: &'static str = "^[A-Z][A-Z0-9]*$";

/// Whether `name` has the shape of a symbol.
pub open spec fn legal_symbol(name: Seq<char>) -> bool {
    regex_is_match(LEGAL_SYMBOL@, name) == Some(true)
}

/// What the table knows of one symbol.
pub struct SymbolData {
    location: u32,
    need_alloc: bool,
    waiting_list: Vec<u32>,
}

/// The mathematical value of a [`SymbolData`].
pub struct Symbol {
    /// The address of the symbol; zero until it is defined.
    pub location: u32,
    /// Whether the symbol still waits for its definition.
    pub need_alloc: bool,
    /// The locations of the lines that used the symbol before its definition.
    pub waiting_list: Seq<u32>,
}

impl Symbol {
    /// An undefined symbol reads as address zero and lists each waiting line
    /// once; a defined symbol has nobody waiting.
    pub open spec fn wf(self) -> bool {
        if self.need_alloc {
            self.location == 0 && self.waiting_list.no_duplicates()
        } else {
            self.waiting_list.len() == 0
        }
    }
}

impl View for SymbolData {
    type V = Symbol;

    closed spec fn view(&self) -> Symbol {
        Symbol {
            location: self.location,
            need_alloc: self.need_alloc,
            waiting_list: self.waiting_list@,
        }
    }
}

/// `w` with `location` at its end, unless it is in `w` already.
pub open spec fn add_once(w: Seq<u32>, location: u32) -> Seq<u32> {
    if w.contains(location) {
        w
    } else {
        w.push(location)
    }
}

/// `w` without `location`.
pub open spec fn without(w: Seq<u32>, location: u32) -> Seq<u32>
    decreases w.len(),
{
    if w.len() == 0 {
        w
    } else if w.last() == location {
        without(w.drop_last(), location)
    } else {
        without(w.drop_last(), location).push(w.last())
    }
}

/// What is left in `without(w, location)` was in `w`, in the same order and
/// as often; so a list without repetitions stays one.
proof fn lemma_without(w: Seq<u32>, location: u32)
    ensures
        forall|x: u32| #[trigger] without(w, location).contains(x) ==> w.contains(x) && x != location,
        forall|x: u32| w.contains(x) && x != location ==> #[trigger] without(w, location).contains(x),
        w.no_duplicates() ==> without(w, location).no_duplicates(),
    decreases w.len(),
{
    if w.len() > 0 {
        let h = w.drop_last();
        let r = without(h, location);
        lemma_without(h, location);
        assert forall|x: u32| #[trigger] without(w, location).contains(x) implies w.contains(x) && x
            != location by {
            let i = choose|i: int| 0 <= i < without(w, location).len() && without(w, location)[i] == x;
            if w.last() != location && i == r.len() {
                assert(w[w.len() - 1] == x);
            } else {
                assert(r[i] == x);
                assert(r.contains(x));
                let j = choose|j: int| 0 <= j < h.len() && h[j] == x;
                assert(w[j] == x);
            }
        }
        assert forall|x: u32| w.contains(x) && x != location implies #[trigger] without(
            w,
            location,
        ).contains(x) by {
            let j = choose|j: int| 0 <= j < w.len() && w[j] == x;
            if j < h.len() {
                assert(h[j] == x);
                assert(h.contains(x));
                assert(without(h, location).contains(x));
                let i = choose|i: int| 0 <= i < r.len() && r[i] == x;
                assert(without(w, location)[i] == x);
            } else {
                assert(without(w, location)[r.len() as int] == x);
            }
        }
        if w.no_duplicates() {
            assert(h.no_duplicates());
            if w.last() != location {
                assert(!r.contains(w.last())) by {
                    if r.contains(w.last()) {
                        let j = choose|j: int| 0 <= j < h.len() && h[j] == w.last();
                        assert(w[j] == w[w.len() - 1]);
                    }
                }
                assert forall|i: int, j: int|
                    0 <= i < r.len() + 1 && 0 <= j < r.len() + 1 && i != j implies r.push(
                    w.last(),
                )[i] != r.push(w.last())[j] by {
                    if i < r.len() && j < r.len() {
                    } else if i < r.len() {
                        assert(r.contains(r[i]));
                    } else {
                        assert(r.contains(r[j]));
                    }
                }
            }
        }
    }
}

/// The table after a line at `location` has used `name`, and what the line
/// learns: the address of a defined symbol, or zero and `true` where the
/// symbol is not defined yet, in which case the line now waits for it.
pub open spec fn refer(t: Map<Seq<char>, Symbol>, name: Seq<char>, location: u32) -> (
    Map<Seq<char>, Symbol>,
    (u32, bool),
) {
    if !t.contains_key(name) {
        (
            t.insert(name, Symbol { location: 0, need_alloc: true, waiting_list: seq![location] }),
            (0, true),
        )
    } else if t[name].need_alloc {
        (
            t.insert(
                name,
                Symbol {
                    location: t[name].location,
                    need_alloc: true,
                    waiting_list: add_once(t[name].waiting_list, location),
                },
            ),
            (0u32, true),
        )
    } else {
        (t, (t[name].location, false))
    }
}

/// The table after `name` has been defined at `location`, with the lines
/// that waited for it; `None` where `name` was defined before.
pub open spec fn define(t: Map<Seq<char>, Symbol>, name: Seq<char>, location: u32) -> Option<
    (Map<Seq<char>, Symbol>, Seq<u32>),
> {
    if t.contains_key(name) && !t[name].need_alloc {
        None
    } else {
        Some(
            (
                t.insert(name, Symbol { location, need_alloc: false, waiting_list: Seq::empty() }),
                if t.contains_key(name) {
                    t[name].waiting_list
                } else {
                    Seq::empty()
                },
            ),
        )
    }
}

/// The address of `name` and whether it is still undefined, if the table has
/// it.
pub open spec fn probe(t: Map<Seq<char>, Symbol>, name: Seq<char>) -> Option<(u32, bool)> {
    if t.contains_key(name) {
        Some((t[name].location, t[name].need_alloc))
    } else {
        None
    }
}

/// The table after the line at `location` has stopped waiting for `name`.
pub open spec fn forget(t: Map<Seq<char>, Symbol>, name: Seq<char>, location: u32) -> Map<
    Seq<char>,
    Symbol,
> {
    if t.contains_key(name) {
        t.insert(
            name,
            Symbol {
                location: t[name].location,
                need_alloc: t[name].need_alloc,
                waiting_list: without(t[name].waiting_list, location),
            },
        )
    } else {
        t
    }
}

/// Whether every symbol of the table is well formed.
pub open spec fn symbols_wf(t: Map<Seq<char>, Symbol>) -> bool {
    forall|k: Seq<char>| #[trigger] t.contains_key(k) ==> t[k].wf()
}

/// The locations of a list, in decimal, separated by commas.
pub open spec fn items_text(w: Seq<u32>) -> Seq<char>
    decreases w.len(),
{
    if w.len() == 0 {
        Seq::empty()
    } else if w.len() == 1 {
        numeral(w[0] as nat, false)
    } else {
        items_text(w.drop_last()) + ", "@ + numeral(w.last() as nat, false)
    }
}

/// One line of the listing of the table: the name, the address in at least
/// four hexadecimal digits, and the waiting locations in brackets.
pub open spec fn entry_text(name: Seq<char>, symbol: Symbol) -> Seq<char> {
    name + " -> "@ + hex_field(symbol.location as nat, 4) + " : "@ + ("["@ + items_text(
        symbol.waiting_list,
    ) + "]"@)
}

/// The symbol table.
pub struct SymbolTable {
    names: Vec<String>,
    entries: Vec<SymbolData>,
}

impl View for SymbolTable {
    type V = Map<Seq<char>, Symbol>;

    closed spec fn view(&self) -> Map<Seq<char>, Symbol> {
        Map::new(
            |k: Seq<char>| self.position(k) is Some,
            |k: Seq<char>| self.entries@[self.position(k).unwrap()]@,
        )
    }
}

fn holds(w: &Vec<u32>, location: u32) -> (r: bool)
    ensures
        r == w@.contains(location),
{
    let mut i: usize = 0;
    while i < w.len()
        invariant
            i <= w.len(),
            forall|k: int| 0 <= k < i ==> w@[k] != location,
        decreases w.len() - i,
    {
        if w[i] == location {
            return true;
        }
        i += 1;
    }
    false
}

fn copy_without(w: &Vec<u32>, location: u32) -> (r: Vec<u32>)
    ensures
        r@ == without(w@, location),
{
    let mut r: Vec<u32> = Vec::new();
    let mut i: usize = 0;
    assert(w@.subrange(0, 0) =~= Seq::<u32>::empty());
    while i < w.len()
        invariant
            i <= w.len(),
            r@ == without(w@.subrange(0, i as int), location),
        decreases w.len() - i,
    {
        assert(w@.subrange(0, i + 1).drop_last() =~= w@.subrange(0, i as int));
        if w[i] != location {
            r.push(w[i]);
        }
        i += 1;
    }
    assert(w@.subrange(0, w.len() as int) =~= w@);
    r
}

fn copy_list(w: &Vec<u32>) -> (r: Vec<u32>)
    ensures
        r@ == w@,
{
    let mut r: Vec<u32> = Vec::new();
    let mut i: usize = 0;
    while i < w.len()
        invariant
            i <= w.len(),
            r@ == w@.subrange(0, i as int),
        decreases w.len() - i,
    {
        r.push(w[i]);
        i += 1;
        assert(r@ =~= w@.subrange(0, i as int));
    }
    assert(w@.subrange(0, w.len() as int) =~= w@);
    r
}

impl SymbolTable {
    /// Where `name` stands in the table, if it is there.
    pub closed spec fn position(&self, name: Seq<char>) -> Option<int> {
        if exists|i: int| 0 <= i < self.names@.len() && self.names@[i]@ == name {
            Some(choose|i: int| 0 <= i < self.names@.len() && self.names@[i]@ == name)
        } else {
            None
        }
    }

    /// Every name stands once, beside its data.
    pub closed spec fn distinct(&self) -> bool {
        &&& self.names@.len() == self.entries@.len()
        &&& forall|i: int, j: int|
            0 <= i < self.names@.len() && 0 <= j < self.names@.len() && i != j
                ==> self.names@[i]@ != self.names@[j]@
    }

    /// The table is well formed: every name stands once, and every symbol
    /// is well formed.
    pub open spec fn wf(&self) -> bool {
        self.distinct() && symbols_wf(self@)
    }

    /// A table without symbols.
    pub fn new() -> (t: SymbolTable)
        ensures
            t.wf(),
            t@ == Map::<Seq<char>, Symbol>::empty(),
    {
        let t = SymbolTable { names: Vec::new(), entries: Vec::new() };
        assert(t@ =~= Map::<Seq<char>, Symbol>::empty());
        t
    }

    fn find(&self, symbol: &str) -> (r: Option<usize>)
        requires
            self.distinct(),
        ensures
            match r {
                Some(i) => i < self.names@.len() && self.names@[i as int]@ == symbol@
                    && self.position(symbol@) == Some(i as int) && self@.contains_key(symbol@)
                    && self@[symbol@] == self.entries@[i as int]@,
                None => self.position(symbol@) is None && !self@.contains_key(symbol@),
            },
    {
        let mut i: usize = 0;
        while i < self.names.len()
            invariant
                self.distinct(),
                i <= self.names.len(),
                forall|k: int| 0 <= k < i ==> self.names@[k]@ != symbol@,
            decreases self.names.len() - i,
        {
            if str_eq(self.names[i].as_str(), symbol) {
                assert(self.names@[i as int]@ == symbol@);
                assert(self.position(symbol@) == Some(i as int));
                return Some(i);
            }
            i += 1;
        }
        None
    }

    fn store(&mut self, symbol: &str, data: SymbolData)
        requires
            old(self).distinct(),
        ensures
            final(self).distinct(),
            final(self)@ == old(self)@.insert(symbol@, data@),
    {
        let ghost before = *self;
        match self.find(symbol) {
            Some(i) => {
                self.entries.set(i, data);
                proof {
                    assert(self.names@ == before.names@);
                    assert forall|k: Seq<char>| self.position(k) == before.position(k) by {}
                    assert(self@ =~= before@.insert(symbol@, data@));
                }
            },
            None => {
                self.names.push(String::from_str(symbol));
                self.entries.push(data);
                proof {
                    let n = before.names@.len() as int;
                    assert(self.names@[n]@ == symbol@);
                    assert forall|i: int, j: int|
                        0 <= i < self.names@.len() && 0 <= j < self.names@.len() && i
                            != j implies self.names@[i]@ != self.names@[j]@ by {
                        if i < n && j < n {
                            assert(self.names@[i] == before.names@[i]);
                            assert(self.names@[j] == before.names@[j]);
                        } else if i < n {
                            assert(self.names@[i] == before.names@[i]);
                        } else {
                            assert(self.names@[j] == before.names@[j]);
                        }
                    }
                    assert forall|k: Seq<char>|
                        (#[trigger] self@.contains_key(k)) == before@.insert(
                            symbol@,
                            data@,
                        ).contains_key(k) by {
                        if before.position(k) is Some {
                            let i = before.position(k).unwrap();
                            assert(self.names@[i] == before.names@[i]);
                        }
                        if self.position(k) is Some {
                            let i = self.position(k).unwrap();
                            if i < n {
                                assert(self.names@[i] == before.names@[i]);
                            }
                        }
                        if k == symbol@ {
                            assert(self.names@[n]@ == k);
                        }
                    }
                    assert forall|k: Seq<char>| #[trigger] self@.contains_key(k) implies self@[k]
                        == before@.insert(symbol@, data@)[k] by {
                        let i = self.position(k).unwrap();
                        if i < n {
                            assert(self.names@[i] == before.names@[i]);
                            assert(before.position(k) is Some);
                            let j = before.position(k).unwrap();
                            assert(self.names@[j] == before.names@[j]);
                            assert(i == j);
                        } else {
                            assert(k == symbol@);
                        }
                    }
                    assert(self@ =~= before@.insert(symbol@, data@));
                }
            },
        }
    }

    /// The names of the table, in the order in which they came.
    pub closed spec fn order(&self) -> Seq<Seq<char>> {
        self.names@.map_values(|n: String| n@)
    }

    /// The listing of the table: one line for each symbol, in the order in
    /// which the symbols came.
    pub fn inter(&self) -> (out: Vec<String>)
        requires
            self.wf(),
        ensures
            out@.len() == self.order().len(),
            forall|i: int|
                0 <= i < out@.len() ==> (#[trigger] out@[i])@ == entry_text(
                    self.order()[i],
                    self@[self.order()[i]],
                ),
            forall|k: Seq<char>| self.order().contains(k) <==> self@.contains_key(k),
    {
        let mut out: Vec<String> = Vec::new();
        let mut i: usize = 0;
        while i < self.names.len()
            invariant
                self.wf(),
                i <= self.names.len(),
                out@.len() == i,
                forall|k: int|
                    0 <= k < i ==> (#[trigger] out@[k])@ == entry_text(
                        self.order()[k],
                        self@[self.order()[k]],
                    ),
            decreases self.names.len() - i,
        {
            let ghost name = self.names@[i as int]@;
            proof {
                assert(self.order()[i as int] == name);
                assert(self.position(name) is Some);
                let j = self.position(name).unwrap();
                assert(j == i);
                assert(self@[name] == self.entries@[i as int]@);
            }
            let entry = &self.entries[i];
            let mut items = String::new();
            let mut k: usize = 0;
            assert(entry.waiting_list@.subrange(0, 0) =~= Seq::<u32>::empty());
            while k < entry.waiting_list.len()
                invariant
                    k <= entry.waiting_list.len(),
                    items@ == items_text(entry.waiting_list@.subrange(0, k as int)),
                decreases entry.waiting_list.len() - k,
            {
                let ghost head = entry.waiting_list@.subrange(0, k as int);
                let ghost next = entry.waiting_list@.subrange(0, k + 1);
                proof {
                    assert(next.drop_last() =~= head);
                    assert(next.last() == entry.waiting_list@[k as int]);
                }
                if k > 0 {
                    items.append(", ");
                }
                push_numeral(&mut items, entry.waiting_list[k] as u64, false);
                k += 1;
                assert(items@ =~= items_text(next));
            }
            assert(entry.waiting_list@.subrange(0, k as int) =~= entry.waiting_list@);
            let mut line = self.names[i].clone();
            line.append(" -> ");
            push_hex(&mut line, entry.location as u64, 4);
            line.append(" : ");
            let mut list = String::from_str("[");
            list.append(items.as_str());
            list.append("]");
            line.append(list.as_str());
            assert(line@ =~= entry_text(name, self@[name]));
            out.push(line);
            i += 1;
        }
        proof {
            assert forall|k: Seq<char>| self.order().contains(k) <==> self@.contains_key(k) by {
                if self.order().contains(k) {
                    let j = choose|j: int| 0 <= j < self.order().len() && self.order()[j] == k;
                    assert(self.names@[j]@ == k);
                    assert(self.position(k) is Some);
                }
                if self@.contains_key(k) {
                    let j = self.position(k).unwrap();
                    assert(self.order()[j] == k);
                }
            }
        }
        out
    }

    /// Takes the line at `location` off the list of those that wait for
    /// `symbol`.
    pub fn remove_waiting(&mut self, symbol: &str, location: u32)
        requires
            old(self).wf(),
        ensures
            final(self).wf(),
            final(self)@ == forget(old(self)@, symbol@, location),
    {
        match self.find(symbol) {
            Some(i) => {
                let data = SymbolData {
                    location: self.entries[i].location,
                    need_alloc: self.entries[i].need_alloc,
                    waiting_list: copy_without(&self.entries[i].waiting_list, location),
                };
                proof {
                    lemma_without(old(self)@[symbol@].waiting_list, location);
                    assert(old(self)@.contains_key(symbol@));
                    if !data.need_alloc {
                        assert(old(self)@[symbol@].waiting_list =~= Seq::<u32>::empty());
                    }
                    assert(data@.wf());
                }
                self.store(symbol, data);
            },
            None => {},
        }
    }

    /// Whether `symbol` has the shape of a symbol.
    pub fn is_legal(&self, symbol: &str) -> (r: bool)
        ensures
            r == legal_symbol(symbol@),
    {
        match is_match(LEGAL_SYMBOL, symbol) {
            Some(found) => found,
            None => false,
        }
    }

    /// The address of `symbol` and whether it is still undefined, if the
    /// table has it. Changes nothing.
    pub fn get_location(&self, symbol: &str) -> (r: Option<(u32, bool)>)
        requires
            self.wf(),
        ensures
            r == probe(self@, symbol@),
    {
        match self.find(symbol) {
            Some(i) => Some((self.entries[i].location, self.entries[i].need_alloc)),
            None => None,
        }
    }

    /// Records that the line at `obj_code_location` uses `symbol`: the
    /// address of a defined symbol, or zero and `true`, after which the line
    /// waits for the definition. A text that is no symbol is refused.
    pub fn get_location_or_create(&mut self, symbol: &str, obj_code_location: u32) -> (r: Result<
        (u32, bool),
        AsmError,
    >)
        requires
            old(self).wf(),
        ensures
            final(self).wf(),
            final(self)@ == use_symbol(old(self)@, symbol@, obj_code_location).0,
            agrees(r, use_symbol(old(self)@, symbol@, obj_code_location).1),
    {
        if !self.is_legal(symbol) {
            return Err(AsmError::about(ErrorKind::IllegalSymbol, symbol));
        }
        match self.find(symbol) {
            Some(i) => {
                let location: u32 = self.entries[i].location;
                if self.entries[i].need_alloc {
                    let mut list = copy_list(&self.entries[i].waiting_list);
                    if !holds(&list, obj_code_location) {
                        list.push(obj_code_location);
                        proof {
                            let w = old(self)@[symbol@].waiting_list;
                            assert forall|a: int, b: int|
                                0 <= a < w.len() + 1 && 0 <= b < w.len() + 1 && a
                                    != b implies w.push(obj_code_location)[a] != w.push(
                                obj_code_location,
                            )[b] by {
                                if a < w.len() && b < w.len() {
                                } else if a < w.len() {
                                    assert(w.contains(w[a]));
                                } else {
                                    assert(w.contains(w[b]));
                                }
                            }
                        }
                    }
                    assert(old(self)@[symbol@].wf());
                    let data = SymbolData { location, need_alloc: true, waiting_list: list };
                    assert(data@.wf());
                    self.store(symbol, data);
                    Ok((location, true))
                } else {
                    Ok((location, false))
                }
            },
            None => {
                let mut list: Vec<u32> = Vec::new();
                list.push(obj_code_location);
                assert(list@ =~= seq![obj_code_location]);
                let data = SymbolData { location: 0, need_alloc: true, waiting_list: list };
                assert(data@.wf());
                self.store(symbol, data);
                Ok((0, true))
            },
        }
    }

    /// Defines `symbol` at `obj_code_location` and hands back the locations
    /// of the lines that waited for it. A text that is no symbol is refused,
    /// and so is a symbol that was defined before.
    pub fn insert(&mut self, symbol: &str, obj_code_location: u32) -> (r: Result<Vec<u32>, AsmError>)
        requires
            old(self).wf(),
        ensures
            final(self).wf(),
            final(self)@ == define_symbol(old(self)@, symbol@, obj_code_location).0,
            match r {
                Ok(list) => define_symbol(old(self)@, symbol@, obj_code_location).1 == Ok::<
                    Seq<u32>,
                    Fault,
                >(list@),
                Err(e) => define_symbol(old(self)@, symbol@, obj_code_location).1 == Err::<
                    Seq<u32>,
                    Fault,
                >(e@),
            },
    {
        if !self.is_legal(symbol) {
            return Err(AsmError::about(ErrorKind::IllegalSymbol, symbol));
        }
        let data = SymbolData {
            location: obj_code_location,
            need_alloc: false,
            waiting_list: Vec::new(),
        };
        assert(data@.waiting_list =~= Seq::<u32>::empty());
        match self.find(symbol) {
            Some(i) => {
                if self.entries[i].need_alloc {
                    let list = copy_list(&self.entries[i].waiting_list);
                    self.store(symbol, data);
                    Ok(list)
                } else {
                    Err(AsmError::about(ErrorKind::DuplicateSymbol, symbol))
                }
            },
            None => {
                self.store(symbol, data);
                let list: Vec<u32> = Vec::new();
                assert(list@ =~= Seq::<u32>::empty());
                Ok(list)
            },
        }
    }
}

/// What using `name` on the line at `location` gives, and the table
/// afterwards: a text that has not the shape of a symbol is refused and
/// changes nothing; a symbol is looked up as [`refer`] says.
pub open spec fn use_symbol(t: Map<Seq<char>, Symbol>, name: Seq<char>, location: u32) -> (
    Map<Seq<char>, Symbol>,
    Result<(u32, bool), Fault>,
) {
    if !legal_symbol(name) {
        (t, Err(fault_about(ErrorKind::IllegalSymbol, name)))
    } else {
        (refer(t, name, location).0, Ok(refer(t, name, location).1))
    }
}

/// What defining `name` at `location` gives, and the table afterwards: a
/// text that has not the shape of a symbol is refused, and so is a symbol
/// that is defined already, and both change nothing; otherwise the lines
/// that waited for the symbol are handed back, as [`define`] says.
pub open spec fn define_symbol(t: Map<Seq<char>, Symbol>, name: Seq<char>, location: u32) -> (
    Map<Seq<char>, Symbol>,
    Result<Seq<u32>, Fault>,
) {
    if !legal_symbol(name) {
        (t, Err(fault_about(ErrorKind::IllegalSymbol, name)))
    } else {
        match define(t, name, location) {
            None => (t, Err(fault_about(ErrorKind::DuplicateSymbol, name))),
            Some(defined) => (defined.0, Ok(defined.1)),
        }
    }
}

/// The lines that wait for `name`; none where the table has not got it.
pub open spec fn waiting(t: Map<Seq<char>, Symbol>, name: Seq<char>) -> Seq<u32> {
    if t.contains_key(name) {
        t[name].waiting_list
    } else {
        Seq::empty()
    }
}

/// A symbol that is used before it is defined reads as address zero and
/// pending, and the line that used it is among those that wait for it,
/// together with exactly those that waited before. Its definition then
/// succeeds and hands back exactly the lines that wait, and from then on
/// the symbol is found with the address of its definition and not pending.
pub proof fn law_forward_reference(
    t: Map<Seq<char>, Symbol>,
    name: Seq<char>,
    location: u32,
    address: u32,
)
    requires
        legal_symbol(name),
        !t.contains_key(name) || t[name].need_alloc,
    ensures
        use_symbol(t, name, location).1 == Ok::<(u32, bool), Fault>((0u32, true)),
        waiting(use_symbol(t, name, location).0, name).contains(location),
        waiting(use_symbol(t, name, location).0, name).to_set() == waiting(t, name).to_set().insert(
            location,
        ),
        define_symbol(use_symbol(t, name, location).0, name, address).1 == Ok::<Seq<u32>, Fault>(
            waiting(use_symbol(t, name, location).0, name),
        ),
        probe(define_symbol(use_symbol(t, name, location).0, name, address).0, name) == Some(
            (address, false),
        ),
{
    let before = waiting(t, name);
    let after = waiting(use_symbol(t, name, location).0, name);
    assert(after == add_once(before, location) || (!t.contains_key(name) && after
        == seq![location]));
    assert(after.contains(location)) by {
        if t.contains_key(name) && !before.contains(location) {
            assert(before.push(location)[before.len() as int] == location);
        } else if !t.contains_key(name) {
            assert(seq![location][0] == location);
        }
    }
    assert forall|x: u32| after.to_set().contains(x) <==> before.to_set().insert(location).contains(
        x,
    ) by {
        if after.contains(x) {
            let i = choose|i: int| 0 <= i < after.len() && after[i] == x;
            if i < before.len() && t.contains_key(name) {
                assert(before[i] == x);
            }
        }
        if before.contains(x) {
            let i = choose|i: int| 0 <= i < before.len() && before[i] == x;
            assert(after[i] == x);
        }
    }
    assert(after.to_set() =~= before.to_set().insert(location));
}

/// A symbol that is defined cannot be defined again, whatever the address:
/// the attempt is refused as a duplicate and the table stays as it is.
pub proof fn law_redefinition(t: Map<Seq<char>, Symbol>, name: Seq<char>, address: u32)
    requires
        legal_symbol(name),
        t.contains_key(name),
        !t[name].need_alloc,
    ensures
        define_symbol(t, name, address).1 == Err::<Seq<u32>, Fault>(
            fault_about(ErrorKind::DuplicateSymbol, name),
        ),
        define_symbol(t, name, address).0 == t,
{
}

} // verus!
