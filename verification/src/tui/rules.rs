//! Rules tab (F5): the rule list's selection over the engine's latest
//! statistics.
use vstd::prelude::*;

use crate::script::strings::copy_string;
use crate::tui::keys::KeyCode;

verus! {

/// Snapshot of engine statistics for display.
#[derive(Debug)]
pub struct RulesDisplayState {
    /// Rule names in display order.
    pub rule_names: Vec<String>,
    /// Per-rule match counts, parallel to `rule_names`.
    pub match_counts: Vec<u64>,
    /// Total evaluations across all snapshots.
    pub total_evaluations: u64,
    /// Total actions triggered.
    pub total_actions: u64,
}

/// View of a [`RulesDisplayState`].
pub struct SpecRulesDisplay {
    pub rule_names: Seq<Seq<char>>,
    pub match_counts: Seq<u64>,
    pub total_evaluations: u64,
    pub total_actions: u64,
}

impl View for RulesDisplayState {
    type V = SpecRulesDisplay;

    open spec fn view(&self) -> SpecRulesDisplay {
        SpecRulesDisplay {
            rule_names: self.rule_names@.map_values(|s: String| s@),
            match_counts: self.match_counts@,
            total_evaluations: self.total_evaluations,
            total_actions: self.total_actions,
        }
    }
}

impl Default for RulesDisplayState {
    fn default() -> (s: Self)
        ensures
            s@.rule_names == Seq::<Seq<char>>::empty(),
            s@.match_counts == Seq::<u64>::empty(),
            s@.total_evaluations == 0,
            s@.total_actions == 0,
    {
        let s = RulesDisplayState {
            rule_names: Vec::new(),
            match_counts: Vec::new(),
            total_evaluations: 0,
            total_actions: 0,
        };
        assert(s@.rule_names =~= Seq::<Seq<char>>::empty());
        s
    }
}

impl RulesDisplayState {
    /// A copy of the snapshot.
    pub fn copy(&self) -> (c: Self)
        ensures
            c@ == self@,
    {
        let mut names: Vec<String> = Vec::new();
        let mut i: usize = 0;
        while i < self.rule_names.len()
            invariant
                i <= self.rule_names.len(),
                names@.len() == i,
                forall|k: int| 0 <= k < i ==> #[trigger] names@[k]@ == self.rule_names@[k]@,
            decreases self.rule_names.len() - i,
        {
            names.push(copy_string(&self.rule_names[i]));
            i = i + 1;
        }
        let c = RulesDisplayState {
            rule_names: names,
            match_counts: self.match_counts.clone(),
            total_evaluations: self.total_evaluations,
            total_actions: self.total_actions,
        };
        assert(c@.rule_names =~= self@.rule_names);
        c
    }
}

/// Result of a key press in the Rules tab.
#[derive(Debug, Clone, Copy, PartialEq, Eq, Structural)]
pub enum RulesKeyResult {
    /// The tab used the key.
    Consumed,
    /// The tab did not use the key.
    NotConsumed,
}

/// The selection and result after `code`, over `count` rules.
pub open spec fn rules_step(sel: Option<usize>, code: KeyCode, count: nat) -> (Option<usize>, RulesKeyResult) {
    if code == KeyCode::Char('j') || code == KeyCode::Down {
        let next: usize = match sel {
            Some(i) => if i + 1 < count { (i + 1) as usize } else { 0 },
            None => 0,
        };
        (if count > 0 { Some(next) } else { sel }, RulesKeyResult::Consumed)
    } else if code == KeyCode::Char('k') || code == KeyCode::Up {
        let next: usize = match sel {
            Some(i) => if i == 0 { (count - 1) as usize } else { (i - 1) as usize },
            None => (count - 1) as usize,
        };
        (if count > 0 { Some(next) } else { sel }, RulesKeyResult::Consumed)
    } else {
        (sel, RulesKeyResult::NotConsumed)
    }
}

/// State of the Rules (F5) tab.
pub struct RulesTab {
    selected_rule: Option<usize>,
    display_state: Option<RulesDisplayState>,
}

impl Default for RulesTab {
    fn default() -> (t: Self)
        ensures
            t.selected() is None,
            t.display() is None,
    {
        RulesTab { selected_rule: None, display_state: None }
    }
}

impl RulesTab {
    /// The selected rule, if any.
    pub closed spec fn selected(&self) -> Option<usize> {
        self.selected_rule
    }

    /// The latest statistics, once the engine has sent any.
    pub closed spec fn display(&self) -> Option<SpecRulesDisplay> {
        match self.display_state {
            Some(s) => Some(s@),
            None => None,
        }
    }

    /// Number of rules shown: none before the engine has sent statistics.
    pub open spec fn spec_rule_count(&self) -> nat {
        match self.display() {
            Some(s) => s.rule_names.len(),
            None => 0,
        }
    }

    /// The selected rule, if any.
    pub fn selected_rule(&self) -> (s: Option<usize>)
        ensures
            s == self.selected(),
    {
        self.selected_rule
    }

    /// Stores the engine's latest statistics.
    pub fn set_display_state(&mut self, state: RulesDisplayState)
        ensures
            final(self).display() == Some(state@),
            final(self).selected() == old(self).selected(),
    {
        self.display_state = Some(state);
    }

    /// Handles a key: j/k move the selection over the rules with wrap-around.
    pub fn handle_key(&mut self, code: KeyCode) -> (r: RulesKeyResult)
        ensures
            (final(self).selected(), r) == rules_step(old(self).selected(), code, old(self).spec_rule_count()),
            final(self).display() == old(self).display(),
    {
        let count = self.rule_count();
        match code {
            KeyCode::Char('j') | KeyCode::Down => {
                if count > 0 {
                    let next = match self.selected_rule {
                        Some(i) => if i < count - 1 { i + 1 } else { 0 },
                        None => 0,
                    };
                    self.selected_rule = Some(next);
                }
                RulesKeyResult::Consumed
            },
            KeyCode::Char('k') | KeyCode::Up => {
                if count > 0 {
                    let next = match self.selected_rule {
                        Some(i) => if i == 0 { count - 1 } else { i - 1 },
                        None => count - 1,
                    };
                    self.selected_rule = Some(next);
                }
                RulesKeyResult::Consumed
            },
            _ => RulesKeyResult::NotConsumed,
        }
    }

    /// Number of rules shown.
    pub fn rule_count(&self) -> (n: usize)
        ensures
            n == self.spec_rule_count(),
    {
        match &self.display_state {
            Some(s) => s.rule_names.len(),
            None => 0,
        }
    }

    /// A copy of the latest statistics, or empty ones before any arrive.
    pub fn load_state(&self) -> (s: RulesDisplayState)
        ensures
            match self.display() {
                Some(d) => s@ == d,
                None => s@.rule_names.len() == 0 && s@.match_counts.len() == 0 && s@.total_evaluations == 0
                    && s@.total_actions == 0,
            },
    {
        match &self.display_state {
            Some(s) => s.copy(),
            None => RulesDisplayState::default(),
        }
    }
}

} // verus!
