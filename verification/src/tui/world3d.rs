//! World 3D tab (F2): which key does what to the camera, and the node
//! selection that cycles through nodes nearest the screen centre first.
use vstd::prelude::*;

use crate::tui::input::Direction;
use crate::tui::keys::KeyCode;

verus! {

/// Result of a key press in the World 3D tab.
#[derive(Debug, Clone, Copy, PartialEq, Eq, Structural)]
pub enum KeyResult {
    /// The tab used the key.
    Consumed,
    /// The tab did not use the key.
    NotConsumed,
    /// Inspect this node's process in the Overview tab.
    InspectNode(u32),
}

/// What a key asks of the orbital camera.
#[derive(Debug, Clone, Copy, PartialEq, Eq, Structural)]
pub enum CameraCommand {
    /// Leave the camera as it is.
    Keep,
    /// Rotate by one step: `yaw` and `pitch` are -1, 0 or 1 steps.
    Rotate { yaw: i8, pitch: i8 },
    /// Move one zoom step closer.
    ZoomIn,
    /// Move one zoom step away.
    ZoomOut,
    /// Restore the default camera.
    Reset,
    /// Centre on the selected node, or on all nodes when none is selected.
    Center,
}

/// View of the tab's selection state.
pub struct SelectionView {
    pub auto_rotate: bool,
    pub selected_pid: Option<u32>,
    pub sorted_node_pids: Seq<u32>,
    pub selection_index: Option<usize>,
}

/// The rotation for a navigation direction.
pub open spec fn rotation_for(dir: Direction) -> CameraCommand {
    match dir {
        Direction::Up => CameraCommand::Rotate { yaw: 0, pitch: 1 },
        Direction::Down => CameraCommand::Rotate { yaw: 0, pitch: -1i8 },
        Direction::Left => CameraCommand::Rotate { yaw: -1i8, pitch: 0 },
        Direction::Right => CameraCommand::Rotate { yaw: 1, pitch: 0 },
    }
}

/// Selection after Tab: the next node in order, wrapping to the first.
pub open spec fn cycled(st: SelectionView) -> SelectionView {
    if st.sorted_node_pids.len() == 0 {
        st
    } else {
        let next: int = match st.selection_index {
            Some(i) => (i + 1) % (st.sorted_node_pids.len() as int),
            None => 0,
        };
        SelectionView {
            selection_index: Some(next as usize),
            selected_pid: Some(st.sorted_node_pids[next]),
            ..st
        }
    }
}

/// Selection after Enter: the node nearest the centre, if any.
pub open spec fn nearest(st: SelectionView) -> SelectionView {
    if st.sorted_node_pids.len() == 0 {
        st
    } else {
        SelectionView { selected_pid: Some(st.sorted_node_pids[0]), selection_index: Some(0), ..st }
    }
}

/// The state, result and camera command after `code`.
pub open spec fn world_step(st: SelectionView, code: KeyCode) -> (SelectionView, KeyResult, CameraCommand) {
    match code {
        KeyCode::Char(c) => if c == 'w' {
            (st, KeyResult::Consumed, CameraCommand::Rotate { yaw: 0, pitch: 1 })
        } else if c == 's' {
            (st, KeyResult::Consumed, CameraCommand::Rotate { yaw: 0, pitch: -1i8 })
        } else if c == 'a' {
            (st, KeyResult::Consumed, CameraCommand::Rotate { yaw: -1i8, pitch: 0 })
        } else if c == 'd' {
            (st, KeyResult::Consumed, CameraCommand::Rotate { yaw: 1, pitch: 0 })
        } else if c == '+' || c == '=' {
            (st, KeyResult::Consumed, CameraCommand::ZoomIn)
        } else if c == '-' {
            (st, KeyResult::Consumed, CameraCommand::ZoomOut)
        } else if c == ' ' {
            (SelectionView { auto_rotate: !st.auto_rotate, ..st }, KeyResult::Consumed, CameraCommand::Keep)
        } else if c == 'r' {
            (SelectionView { auto_rotate: false, ..st }, KeyResult::Consumed, CameraCommand::Reset)
        } else if c == 'c' {
            (st, KeyResult::Consumed, CameraCommand::Center)
        } else if c == 'i' {
            match st.selected_pid {
                Some(pid) => (st, KeyResult::InspectNode(pid), CameraCommand::Keep),
                None => (st, KeyResult::NotConsumed, CameraCommand::Keep),
            }
        } else {
            (st, KeyResult::NotConsumed, CameraCommand::Keep)
        },
        KeyCode::Tab => (cycled(st), KeyResult::Consumed, CameraCommand::Keep),
        KeyCode::Enter => (nearest(st), KeyResult::Consumed, CameraCommand::Keep),
        KeyCode::Esc => (
            SelectionView { selected_pid: None, selection_index: None, ..st },
            KeyResult::Consumed,
            CameraCommand::Keep,
        ),
        _ => (st, KeyResult::NotConsumed, CameraCommand::Keep),
    }
}

/// Node selection and auto-rotation of the World 3D tab.
pub struct World3DSelection {
    auto_rotate: bool,
    selected_pid: Option<u32>,
    sorted_node_pids: Vec<u32>,
    selection_index: Option<usize>,
}

impl View for World3DSelection {
    type V = SelectionView;

    closed spec fn view(&self) -> SelectionView {
        SelectionView {
            auto_rotate: self.auto_rotate,
            selected_pid: self.selected_pid,
            sorted_node_pids: self.sorted_node_pids@,
            selection_index: self.selection_index,
        }
    }
}

impl World3DSelection {
    /// No selection, no auto-rotation, no nodes.
    pub fn new() -> (s: Self)
        ensures
            s@ == (SelectionView {
                auto_rotate: false,
                selected_pid: None,
                sorted_node_pids: Seq::empty(),
                selection_index: None,
            }),
    {
        World3DSelection { auto_rotate: false, selected_pid: None, sorted_node_pids: Vec::new(), selection_index: None }
    }

    /// Whether the camera rotates by itself.
    pub fn auto_rotate(&self) -> (b: bool)
        ensures
            b == self@.auto_rotate,
    {
        self.auto_rotate
    }

    /// The selected node's PID, if any.
    pub fn selected_pid(&self) -> (p: Option<u32>)
        ensures
            p == self@.selected_pid,
    {
        self.selected_pid
    }

    /// Position of the selection in the node order, if any.
    pub fn selection_index(&self) -> (i: Option<usize>)
        ensures
            i == self@.selection_index,
    {
        self.selection_index
    }

    /// Records the nodes' PIDs ordered by distance to the screen centre;
    /// a selected node that is no longer among them is deselected.
    pub fn set_sorted_pids(&mut self, pids: Vec<u32>)
        ensures
            final(self)@.sorted_node_pids == pids@,
            final(self)@.auto_rotate == old(self)@.auto_rotate,
            match old(self)@.selected_pid {
                Some(p) => if pids@.contains(p) {
                    final(self)@.selected_pid == old(self)@.selected_pid && final(self)@.selection_index
                        == old(self)@.selection_index
                } else {
                    final(self)@.selected_pid is None && final(self)@.selection_index is None
                },
                None => final(self)@.selected_pid is None && final(self)@.selection_index
                    == old(self)@.selection_index,
            },
    {
        if let Some(pid) = self.selected_pid {
            let mut found = false;
            let mut i: usize = 0;
            while i < pids.len()
                invariant
                    i <= pids.len(),
                    found == (exists|k: int| 0 <= k < i && pids@[k] == pid),
                decreases pids.len() - i,
            {
                if pids[i] == pid {
                    found = true;
                }
                i = i + 1;
            }
            proof {
                if pids@.contains(pid) {
                    let k = choose|k: int| 0 <= k < pids@.len() && pids@[k] == pid;
                    assert(0 <= k < pids.len() && pids@[k] == pid);
                }
            }
            if !found {
                self.selected_pid = None;
                self.selection_index = None;
            }
        }
        self.sorted_node_pids = pids;
    }

    /// Handles a key: WASD rotate, +/- zoom, space toggles auto-rotation,
    /// r resets, c centres, Tab cycles and Enter picks the nearest node,
    /// Esc deselects, i inspects the selected node. Returns the result and
    /// what to do to the camera.
    pub fn handle_key(&mut self, code: KeyCode) -> (r: (KeyResult, CameraCommand))
        ensures
            (final(self)@, r.0, r.1) == world_step(old(self)@, code),
    {
        match code {
            KeyCode::Char(c) => {
                if c == 'w' {
                    (KeyResult::Consumed, CameraCommand::Rotate { yaw: 0, pitch: 1 })
                } else if c == 's' {
                    (KeyResult::Consumed, CameraCommand::Rotate { yaw: 0, pitch: -1 })
                } else if c == 'a' {
                    (KeyResult::Consumed, CameraCommand::Rotate { yaw: -1, pitch: 0 })
                } else if c == 'd' {
                    (KeyResult::Consumed, CameraCommand::Rotate { yaw: 1, pitch: 0 })
                } else if c == '+' || c == '=' {
                    (KeyResult::Consumed, CameraCommand::ZoomIn)
                } else if c == '-' {
                    (KeyResult::Consumed, CameraCommand::ZoomOut)
                } else if c == ' ' {
                    self.auto_rotate = !self.auto_rotate;
                    (KeyResult::Consumed, CameraCommand::Keep)
                } else if c == 'r' {
                    self.auto_rotate = false;
                    (KeyResult::Consumed, CameraCommand::Reset)
                } else if c == 'c' {
                    (KeyResult::Consumed, CameraCommand::Center)
                } else if c == 'i' {
                    match self.selected_pid {
                        Some(pid) => (KeyResult::InspectNode(pid), CameraCommand::Keep),
                        None => (KeyResult::NotConsumed, CameraCommand::Keep),
                    }
                } else {
                    (KeyResult::NotConsumed, CameraCommand::Keep)
                }
            },
            KeyCode::Tab => {
                self.cycle_selection();
                (KeyResult::Consumed, CameraCommand::Keep)
            },
            KeyCode::Enter => {
                self.select_nearest();
                (KeyResult::Consumed, CameraCommand::Keep)
            },
            KeyCode::Esc => {
                self.selected_pid = None;
                self.selection_index = None;
                (KeyResult::Consumed, CameraCommand::Keep)
            },
            _ => (KeyResult::NotConsumed, CameraCommand::Keep),
        }
    }

    /// Selects the next node in order, wrapping to the first.
    pub fn cycle_selection(&mut self)
        ensures
            final(self)@ == cycled(old(self)@),
    {
        let n = self.sorted_node_pids.len();
        if n == 0 {
            return;
        }
        let next = match self.selection_index {
            Some(i) => if i < n - 1 { i + 1 } else { (i - (n - 1)) % n },
            None => 0,
        };
        proof {
            match self.selection_index {
                Some(i) => {
                    if i < n - 1 {
                        assert((i + 1) % (n as int) == i + 1) by (nonlinear_arith)
                            requires
                                0 <= i + 1 < n,
                        ;
                    } else {
                        assert((i + 1) % (n as int) == (i - (n - 1)) % (n as int)) by (nonlinear_arith)
                            requires
                                n >= 1,
                                i >= n - 1,
                        {
                            assert(i + 1 == (i - (n - 1)) + n);
                        }
                    }
                },
                None => {},
            }
        }
        self.selection_index = Some(next);
        self.selected_pid = Some(self.sorted_node_pids[next]);
    }

    /// Selects the node nearest the screen centre, if there is one.
    pub fn select_nearest(&mut self)
        ensures
            final(self)@ == nearest(old(self)@),
    {
        if self.sorted_node_pids.len() > 0 {
            self.selected_pid = Some(self.sorted_node_pids[0]);
            self.selection_index = Some(0);
        }
    }
}

/// What a navigation key asks of the camera.
pub fn navigate(dir: Direction) -> (c: CameraCommand)
    ensures
        c == rotation_for(dir),
{
    match dir {
        Direction::Up => CameraCommand::Rotate { yaw: 0, pitch: 1 },
        Direction::Down => CameraCommand::Rotate { yaw: 0, pitch: -1 },
        Direction::Left => CameraCommand::Rotate { yaw: -1, pitch: 0 },
        Direction::Right => CameraCommand::Rotate { yaw: 1, pitch: 0 },
    }
}

/// Tab cycling always selects one of the listed nodes.
pub proof fn lemma_cycle_selects_listed_node(st: SelectionView)
    requires
        0 < st.sorted_node_pids.len() <= usize::MAX,
    ensures
        cycled(st).selection_index matches Some(i) && i < st.sorted_node_pids.len()
            && cycled(st).selected_pid == Some(st.sorted_node_pids[i as int]),
{
}

} // verus!
