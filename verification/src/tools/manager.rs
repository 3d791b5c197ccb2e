//! Which document tools are enabled.

use vstd::prelude::*;

verus! {

/// The tools after enabling `tool`: added at the end unless already there.
pub open spec fn with_enabled(tools: Seq<Seq<char>>, tool: Seq<char>) -> Seq<Seq<char>> {
    if tools.contains(tool) {
        tools
    } else {
        tools.push(tool)
    }
}

/// The tools after disabling `tool`: every occurrence removed, the rest in
/// order.
pub open spec fn with_disabled(tools: Seq<Seq<char>>, tool: Seq<char>) -> Seq<Seq<char>> {
    tools.filter(other_than(tool))
}

/// Holds of every name but `tool`.
pub open spec fn other_than(tool: Seq<char>) -> spec_fn(Seq<char>) -> bool {
    |t: Seq<char>| t != tool
}

/// The set of enabled tools, in the order they were enabled.
pub struct ToolManager {
    enabled_tools: Vec<String>,
}

impl ToolManager {
    #[verifier::type_invariant]
    spec fn inv(self) -> bool {
        self.tools().no_duplicates()
    }

    /// The names of the enabled tools, in order.
    pub closed spec fn tools(&self) -> Seq<Seq<char>> {
        self.enabled_tools@.map_values(|s: String| s@)
    }

    /// A manager with no tool enabled.
    pub fn new() -> (r: ToolManager)
        ensures
            r.tools() == Seq::<Seq<char>>::empty(),
            r.tools().no_duplicates(),
    {
        let r = ToolManager { enabled_tools: Vec::new() };
        assert(r.tools() =~= Seq::<Seq<char>>::empty());
        r
    }

    fn position(&self, tool: &str) -> (r: Option<usize>)
        ensures
            match r {
                Some(i) => i < self.tools().len() && self.tools()[i as int] == tool@,
                None => !self.tools().contains(tool@),
            },
    {
        let t = String::from_str(tool);
        let mut i: usize = 0;
        while i < self.enabled_tools.len()
            invariant
                i <= self.enabled_tools@.len(),
                t@ == tool@,
                forall|k: int| 0 <= k < i ==> self.tools()[k] != tool@,
            decreases self.enabled_tools@.len() - i,
        {
            if self.enabled_tools[i] == t {
                return Some(i);
            }
            i = i + 1;
        }
        proof {
            if self.tools().contains(tool@) {
                let k = choose|k: int| 0 <= k < self.tools().len() && self.tools()[k] == tool@;
                assert(self.tools()[k] != tool@);
            }
        }
        None
    }

    /// Enables `tool`.
    pub fn enable(&mut self, tool: &str)
        ensures
            final(self).tools() == with_enabled(old(self).tools(), tool@),
            old(self).tools().no_duplicates() && final(self).tools().no_duplicates(),
    {
        proof {
            use_type_invariant(&*self);
        }
        if self.position(tool).is_none() {
            let mut taken = ToolManager::new();
            std::mem::swap(self, &mut taken);
            proof {
                use_type_invariant(&taken);
                lemma_enable_keeps_distinct(taken.tools(), tool@);
            }
            let ToolManager { mut enabled_tools } = taken;
            enabled_tools.push(String::from_str(tool));
            assert(enabled_tools@.map_values(|s: String| s@) =~= old(self).tools().push(tool@));
            *self = ToolManager { enabled_tools };
        }
    }

    /// Disables `tool`.
    pub fn disable(&mut self, tool: &str)
        ensures
            final(self).tools() == with_disabled(old(self).tools(), tool@),
            old(self).tools().no_duplicates() && final(self).tools().no_duplicates(),
    {
        proof {
            use_type_invariant(&*self);
            lemma_disable_keeps_distinct(self.tools(), tool@);
        }
        let t = String::from_str(tool);
        let mut kept: Vec<String> = Vec::new();
        let mut i: usize = 0;
        let ghost all = self.tools();
        while i < self.enabled_tools.len()
            invariant
                i <= self.enabled_tools@.len(),
                all == self.tools(),
                t@ == tool@,
                kept@.map_values(|s: String| s@) == all.take(i as int).filter(other_than(tool@)),
            decreases self.enabled_tools@.len() - i,
        {
            proof {
                assert(all.take(i + 1) =~= all.take(i as int).push(all[i as int]));
                all.take(i as int).lemma_filter_push(all[i as int], other_than(tool@));
            }
            if self.enabled_tools[i] != t {
                let ghost before = kept@;
                kept.push(self.enabled_tools[i].clone());
                assert(kept@.map_values(|s: String| s@) =~= before.map_values(|s: String| s@).push(all[i as int]));
            }
            i = i + 1;
        }
        assert(all.take(all.len() as int) =~= all);
        self.enabled_tools = kept;
    }

    /// Whether `tool` is enabled.
    pub fn is_enabled(&self, tool: &str) -> (r: bool)
        ensures
            r == self.tools().contains(tool@),
            self.tools().no_duplicates(),
    {
        proof {
            use_type_invariant(self);
        }
        self.position(tool).is_some()
    }
}

/// After enabling a tool it is enabled.
pub proof fn lemma_enable_then_enabled(tools: Seq<Seq<char>>, tool: Seq<char>)
    ensures
        with_enabled(tools, tool).contains(tool),
{
    if !tools.contains(tool) {
        assert(tools.push(tool)[tools.len() as int] == tool);
    }
}

/// After disabling a tool it is not enabled.
pub proof fn lemma_disable_then_disabled(tools: Seq<Seq<char>>, tool: Seq<char>)
    ensures
        !with_disabled(tools, tool).contains(tool),
{
    let f = with_disabled(tools, tool);
    broadcast use vstd::seq_lib::group_filter_ensures;
    if f.contains(tool) {
        let k = choose|k: int| 0 <= k < f.len() && f[k] == tool;
        assert((|t: Seq<char>| t != tool)(f[k]));
    }
}

/// Enabling or disabling a tool leaves every other tool as it was.
pub proof fn lemma_other_tools_unaffected(tools: Seq<Seq<char>>, tool: Seq<char>, other: Seq<char>)
    requires
        other != tool,
    ensures
        with_enabled(tools, tool).contains(other) == tools.contains(other),
        with_disabled(tools, tool).contains(other) == tools.contains(other),
{
    let pred = other_than(tool);
    let f = with_disabled(tools, tool);
    broadcast use vstd::seq_lib::group_filter_ensures;
    if tools.contains(other) {
        let k = choose|k: int| 0 <= k < tools.len() && tools[k] == other;
        assert(pred(tools[k]));
        assert(f.contains(tools[k]));
    }
    if f.contains(other) {
        tools.lemma_filter_contains_rev(pred, other);
    }
    if !tools.contains(tool) {
        if tools.push(tool).contains(other) {
            let k = choose|k: int| 0 <= k < tools.len() + 1 && tools.push(tool)[k] == other;
            assert(k < tools.len());
            assert(tools[k] == other);
        }
        if tools.contains(other) {
            let k = choose|k: int| 0 <= k < tools.len() && tools[k] == other;
            assert(tools.push(tool)[k] == other);
        }
    }
}

/// Enabling a tool twice is the same as enabling it once.
pub proof fn lemma_enable_idempotent(tools: Seq<Seq<char>>, tool: Seq<char>)
    ensures
        with_enabled(with_enabled(tools, tool), tool) == with_enabled(tools, tool),
{
    lemma_enable_then_enabled(tools, tool);
}

/// Enabling keeps each tool listed at most once.
pub proof fn lemma_enable_keeps_distinct(tools: Seq<Seq<char>>, tool: Seq<char>)
    requires
        tools.no_duplicates(),
    ensures
        with_enabled(tools, tool).no_duplicates(),
{
    if !tools.contains(tool) {
        let s = tools.push(tool);
        assert forall|i: int, j: int| 0 <= i < s.len() && 0 <= j < s.len() && i != j implies s[i] != s[j] by {
            if i < tools.len() && j < tools.len() {
            } else if i == tools.len() {
                assert(s[j] == tools[j]);
            } else {
                assert(s[i] == tools[i]);
            }
        }
    }
}

/// Disabling keeps each tool listed at most once.
pub proof fn lemma_disable_keeps_distinct(tools: Seq<Seq<char>>, tool: Seq<char>)
    requires
        tools.no_duplicates(),
    ensures
        with_disabled(tools, tool).no_duplicates(),
    decreases tools.len(),
{
    let pred = other_than(tool);
    if tools.len() > 0 {
        let init = tools.drop_last();
        let last = tools.last();
        assert(init.no_duplicates()) by {
            assert forall|i: int, j: int| 0 <= i < init.len() && 0 <= j < init.len() && i != j implies init[i]
                != init[j] by {
                assert(init[i] == tools[i] && init[j] == tools[j]);
            }
        }
        lemma_disable_keeps_distinct(init, tool);
        assert(tools =~= init.push(last));
        init.lemma_filter_push(last, pred);
        if pred(last) {
            let f = init.filter(pred);
            assert(!f.contains(last)) by {
                if f.contains(last) {
                    init.lemma_filter_contains_rev(pred, last);
                    let k = choose|k: int| 0 <= k < init.len() && init[k] == last;
                    assert(tools[k] == tools[tools.len() - 1]);
                }
            }
            assert forall|i: int, j: int| 0 <= i < f.push(last).len() && 0 <= j < f.push(last).len() && i != j implies f.push(
                last,
            )[i] != f.push(last)[j] by {
                if i < f.len() && j < f.len() {
                } else if i == f.len() {
                    assert(f.push(last)[j] == f[j]);
                    assert(f.contains(f[j]));
                } else {
                    assert(f.push(last)[i] == f[i]);
                    assert(f.contains(f[i]));
                }
            }
        }
    } else {
        assert(with_disabled(tools, tool) =~= Seq::<Seq<char>>::empty()) by {
            reveal(Seq::filter);
        }
    }
}

} // verus!
