use vstd::prelude::*;

use crate::graphviz::{decimal, spec_decimal};
use crate::ids::FunctionId;
use crate::record::{endpoints, find_entry, ids_of, keys_unique, Pair};
use vstd::string::StringExecFns;

verus! {

/// The finished call graph of one unit.
pub struct FnData {
    /// Definite calls, as (caller, callee).
    pub static_calls: Vec<Pair>,
    /// Potential calls after dispatch resolution, as (caller, callee).
    pub dynamic_calls: Vec<Pair>,
    /// The nodes: function ids and their qualified names.
    pub functions: Vec<(FunctionId, String)>,
    pub crate_name: String,
}

broadcast use vstd::string::group_string_axioms;

/// The name that a record with unique keys gives to `id`.
pub open spec fn name_of(fs: Seq<(FunctionId, String)>, id: FunctionId) -> Seq<char> {
    fs[choose|i: int| 0 <= i < fs.len() && fs[i].0 == id].1@
}

/// An id written as origin and index: `0:12`.
pub open spec fn id_text(id: FunctionId) -> Seq<char> {
    spec_decimal(id.krate as nat) + ":"@ + spec_decimal(id.index as nat)
}

/// The line of one function: its id and its name.
pub open spec fn fn_line(e: (FunctionId, String)) -> Seq<char> {
    id_text(e.0) + ": "@ + e.1@
}

/// The lines of the listed functions, in order.
pub open spec fn fn_lines(fs: Seq<(FunctionId, String)>) -> Seq<Seq<char>> {
    fs.map_values(|e: (FunctionId, String)| fn_line(e))
}

/// Two lines per definite call: as ids, then as names.
pub open spec fn static_lines(fs: Seq<(FunctionId, String)>, calls: Seq<Pair>) -> Seq<Seq<char>>
    decreases calls.len(),
{
    if calls.len() == 0 {
        seq![]
    } else {
        let e = calls.last();
        static_lines(fs, calls.drop_last()) + seq![
            id_text(e.0) + " -> "@ + id_text(e.1),
            name_of(fs, e.0) + " -> "@ + name_of(fs, e.1),
        ]
    }
}

/// One line per potential call, as names.
pub open spec fn dynamic_lines(fs: Seq<(FunctionId, String)>, calls: Seq<Pair>) -> Seq<Seq<char>> {
    calls.map_values(|e: Pair| name_of(fs, e.0) + " -> "@ + name_of(fs, e.1))
}

/// The characters of each line.
pub open spec fn text_lines(v: Seq<String>) -> Seq<Seq<char>> {
    v.map_values(|l: String| l@)
}

/// The text report of a graph, line by line: the functions, the definite
/// calls and the potential calls, each under its heading.
pub open spec fn spec_dump(d: FnData) -> Seq<Seq<char>> {
    seq!["Found fns:"@] + fn_lines(d.functions@) + seq![""@, "Found calls:"@] + static_lines(d.functions@, d.static_calls@)
        + seq![""@, "Found potential calls:"@] + dynamic_lines(d.functions@, d.dynamic_calls@)
}

// The text of an id.
fn id_string(id: FunctionId) -> (r: String)
    ensures
        r@ == id_text(id),
{
    let mut r = decimal(id.krate);
    r.append(":");
    let index = decimal(id.index);
    r.append(index.as_str());
    r
}

impl FnData {
    /// The nodes of the graph.
    pub open spec fn node_ids(self) -> Set<FunctionId> {
        ids_of(self.functions@)
    }

    /// All edges of the graph, definite and potential.
    pub open spec fn edge_set(self) -> Set<Pair> {
        self.static_calls@.to_set().union(self.dynamic_calls@.to_set())
    }

    /// A finished graph: one entry per node, no repeated edge, and both ends
    /// of every edge are nodes.
    pub open spec fn wf(self) -> bool {
        &&& keys_unique(self.functions@)
        &&& self.static_calls@.no_duplicates()
        &&& self.dynamic_calls@.no_duplicates()
        &&& endpoints(self.edge_set()).subset_of(self.node_ids())
    }

    // The name of a node.
    fn name(&self, id: FunctionId) -> (r: String)
        requires
            keys_unique(self.functions@),
            self.node_ids().contains(id),
        ensures
            r@ == name_of(self.functions@, id),
    {
        match find_entry(&self.functions, id) {
            Some(i) => {
                let ghost c = choose|c: int| 0 <= c < self.functions@.len() && self.functions@[c].0 == id;
                assert(c == i);
                self.functions[i].1.clone()
            },
            None => String::new(),
        }
    }

    // "a -> b", with the names of both ends of an edge.
    fn names_line(&self, e: Pair) -> (r: String)
        requires
            keys_unique(self.functions@),
            self.node_ids().contains(e.0),
            self.node_ids().contains(e.1),
        ensures
            r@ == name_of(self.functions@, e.0) + " -> "@ + name_of(self.functions@, e.1),
    {
        let mut r = self.name(e.0);
        r.append(" -> ");
        let to = self.name(e.1);
        r.append(to.as_str());
        r
    }

    /// The text report of the graph, one string per line.
    pub fn dump(&self) -> (r: Vec<String>)
        requires
            self.wf(),
        ensures
            text_lines(r@) == spec_dump(*self),
    {
        let mut r: Vec<String> = Vec::new();
        r.push(String::from_str("Found fns:"));
        let ghost head = seq!["Found fns:"@];
        let mut i: usize = 0;
        while i < self.functions.len()
            invariant
                0 <= i <= self.functions@.len(),
                head == seq!["Found fns:"@],
                text_lines(r@) == head + fn_lines(self.functions@.subrange(0, i as int)),
            decreases self.functions@.len() - i,
        {
            let mut line = id_string(self.functions[i].0);
            line.append(": ");
            line.append(self.functions[i].1.as_str());
            let ghost before = r@;
            let ghost line_text = line@;
            r.push(line);
            assert(text_lines(r@) =~= text_lines(before).push(line_text));
            assert(self.functions@.subrange(0, i + 1) =~= self.functions@.subrange(0, i as int).push(self.functions@[i as int]));
            assert(text_lines(r@) =~= head + fn_lines(self.functions@.subrange(0, i + 1)));
            i += 1;
        }
        assert(self.functions@.subrange(0, i as int) =~= self.functions@);
        let ghost before = r@;
        proof {
            reveal_strlit("");
        }
        let blank = String::new();
        let title = String::from_str("Found calls:");
        let ghost blank_text = blank@;
        let ghost title_text = title@;
        assert(blank_text =~= ""@);
        r.push(blank);
        r.push(title);
        assert(text_lines(r@) =~= text_lines(before) + seq![blank_text, title_text]);
        assert(text_lines(r@) =~= text_lines(before) + seq![""@, "Found calls:"@]);
        let ghost part = head + fn_lines(self.functions@) + seq![""@, "Found calls:"@];
        assert(text_lines(r@) =~= part);
        let mut j: usize = 0;
        while j < self.static_calls.len()
            invariant
                self.wf(),
                0 <= j <= self.static_calls@.len(),
                text_lines(r@) == part + static_lines(self.functions@, self.static_calls@.subrange(0, j as int)),
            decreases self.static_calls@.len() - j,
        {
            let e = self.static_calls[j];
            assert(self.static_calls@.to_set().contains(self.static_calls@[j as int]));
            assert(self.edge_set().contains(e));
            assert(endpoints(self.edge_set()).contains(e.0));
            assert(endpoints(self.edge_set()).contains(e.1));
            let mut ids = id_string(e.0);
            ids.append(" -> ");
            let to = id_string(e.1);
            ids.append(to.as_str());
            let names = self.names_line(e);
            let ghost before = r@;
            let ghost ids_text = ids@;
            let ghost names_text = names@;
            r.push(ids);
            r.push(names);
            assert(text_lines(r@) =~= text_lines(before) + seq![ids_text, names_text]);
            assert(self.static_calls@.subrange(0, j + 1).drop_last() =~= self.static_calls@.subrange(0, j as int));
            assert(text_lines(r@) =~= part + static_lines(self.functions@, self.static_calls@.subrange(0, j + 1)));
            j += 1;
        }
        assert(self.static_calls@.subrange(0, j as int) =~= self.static_calls@);
        let ghost before = r@;
        proof {
            reveal_strlit("");
        }
        let blank = String::new();
        let title = String::from_str("Found potential calls:");
        let ghost blank_text = blank@;
        let ghost title_text = title@;
        assert(blank_text =~= ""@);
        r.push(blank);
        r.push(title);
        assert(text_lines(r@) =~= text_lines(before) + seq![blank_text, title_text]);
        assert(text_lines(r@) =~= text_lines(before) + seq![""@, "Found potential calls:"@]);
        let ghost part2 = part + static_lines(self.functions@, self.static_calls@) + seq![""@, "Found potential calls:"@];
        assert(text_lines(r@) =~= part2);
        let mut k: usize = 0;
        while k < self.dynamic_calls.len()
            invariant
                self.wf(),
                0 <= k <= self.dynamic_calls@.len(),
                text_lines(r@) == part2 + dynamic_lines(self.functions@, self.dynamic_calls@.subrange(0, k as int)),
            decreases self.dynamic_calls@.len() - k,
        {
            let e = self.dynamic_calls[k];
            assert(self.dynamic_calls@.to_set().contains(self.dynamic_calls@[k as int]));
            assert(self.edge_set().contains(e));
            assert(endpoints(self.edge_set()).contains(e.0));
            assert(endpoints(self.edge_set()).contains(e.1));
            let names = self.names_line(e);
            let ghost before = r@;
            let ghost names_text = names@;
            r.push(names);
            assert(text_lines(r@) =~= text_lines(before).push(names_text));
            assert(self.dynamic_calls@.subrange(0, k + 1) =~= self.dynamic_calls@.subrange(0, k as int).push(self.dynamic_calls@[k as int]));
            assert(text_lines(r@) =~= part2 + dynamic_lines(self.functions@, self.dynamic_calls@.subrange(0, k + 1)));
            k += 1;
        }
        assert(self.dynamic_calls@.subrange(0, k as int) =~= self.dynamic_calls@);
        r
    }
}

} // verus!
