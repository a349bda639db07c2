//! Session state for the terminal picker: the query, the result list, the
//! selection, and the help overlay, together with the keyboard transition
//! rules and the geometry of the centered help popup.

use vstd::prelude::*;

use crate::unicode::CodePoint;
use crate::unicode::lookup_by_name;
use crate::unicode::lookup_post;

verus! {

/// A keyboard event, reduced to what the session distinguishes.  Every key
/// that is neither an escape, an enter, an arrow nor a printable character
/// is `Other`; in normal mode such keys are handed to the line editor.
#[derive(Clone, Copy, Debug, PartialEq, Eq, Structural)]
pub enum Key {
    Esc,
    Enter,
    Down,
    Up,
    Char(char),
    Other,
}

/// What the caller of `App::on_key` has to do next: keep going, stop the
/// session, copy a character to the clipboard, or apply the key to the line
/// editor and hand the edited query back through `App::set_query`.
#[derive(Clone, Copy, Debug, PartialEq, Eq, Structural)]
pub enum Action {
    Stay,
    Quit,
    Copy(char),
    Edit,
}

/// The selection after one step forward: the first entry when nothing is
/// selected, otherwise the next entry, clamped to the last one.
pub open spec fn down_sel(sel: Option<usize>, n: nat) -> Option<usize> {
    if n == 0 {
        None
    } else {
        match sel {
            None => Some(0usize),
            Some(i) => if i + 1 < n {
                Some((i + 1) as usize)
            } else {
                Some((n - 1) as usize)
            },
        }
    }
}

/// The selection after one step backward: the last entry when nothing is
/// selected, otherwise the previous entry, clamped to the first one.
pub open spec fn up_sel(sel: Option<usize>, n: nat) -> Option<usize> {
    if n == 0 {
        None
    } else {
        match sel {
            None => Some((n - 1) as usize),
            Some(i) => if i > 0 {
                Some((i - 1) as usize)
            } else {
                Some(0usize)
            },
        }
    }
}

/// The index of the entry an enter key copies: the selected one, or the
/// first when nothing is selected yet.
pub open spec fn sel_or_first(sel: Option<usize>) -> usize {
    match sel {
        Some(i) => i,
        None => 0usize,
    }
}

/// The state the session owns: the query, the result list the query produced,
/// the selection into that list, and whether the help overlay is shown.
pub struct App {
    pub search: String,
    pub results: Vec<CodePoint>,
    pub popup: bool,
    pub selected: Option<usize>,
}

impl App {
    /// A selection, when present, points into the result list.
    pub open spec fn wf(self) -> bool {
        match self.selected {
            Some(i) => i < self.results@.len(),
            None => true,
        }
    }

    /// The initial session: empty query, no results, no selection, no
    /// overlay.
    pub fn new() -> (app: App)
        ensures
            app.search@.len() == 0,
            app.results@.len() == 0,
            app.popup == false,
            app.selected is None,
            app.wf(),
    {
        App { search: String::new(), results: Vec::new(), popup: false, selected: None }
    }

    /// Replace the query with `q`, re-run the lookup on it, and clear the
    /// selection.  Resetting the selection on every query change means a
    /// stale index can never point past the bounds of the new result list.
    pub fn set_query(&mut self, q: String)
        ensures
            final(self).search@ == q@,
            lookup_post(q@, final(self).results@),
            final(self).selected is None,
            final(self).popup == old(self).popup,
            final(self).wf(),
    {
        self.selected = None;
        lookup_by_name(q.as_str(), &mut self.results);
        self.search = q;
    }

    /// Take one keyboard event and step the session.  In normal mode: escape
    /// opens the help overlay, the arrows move the selection (from no
    /// selection, down selects the first entry and up the last), enter
    /// copies the selected entry, defaulting to the first when nothing is
    /// selected yet and doing nothing on an empty result list, and any other
    /// key is an edit of the query.  While the overlay is shown: escape
    /// closes it, `q` ends the session, and every other key is ignored, so
    /// the query and the results underneath stay as they are.
    pub fn on_key(&mut self, k: Key) -> (a: Action)
        requires
            old(self).wf(),
        ensures
            final(self).wf(),
            final(self).search@ == old(self).search@,
            final(self).results@ == old(self).results@,
            old(self).popup ==> final(self).selected == old(self).selected,
            old(self).popup ==> match k {
                Key::Esc => !final(self).popup && a == Action::Stay,
                Key::Char(c) => final(self).popup && a == (if c == 'q' {
                    Action::Quit
                } else {
                    Action::Stay
                }),
                _ => final(self).popup && a == Action::Stay,
            },
            !old(self).popup ==> match k {
                Key::Esc => final(self).popup && a == Action::Stay && final(self).selected
                    == old(self).selected,
                Key::Down => !final(self).popup && a == Action::Stay && final(self).selected
                    == down_sel(old(self).selected, old(self).results@.len()),
                Key::Up => !final(self).popup && a == Action::Stay && final(self).selected
                    == up_sel(old(self).selected, old(self).results@.len()),
                Key::Enter => !final(self).popup && (if old(self).results@.len() == 0 {
                    final(self).selected == old(self).selected && a == Action::Stay
                } else {
                    final(self).selected == Some(sel_or_first(old(self).selected)) && a
                        == Action::Copy(
                        old(self).results@[sel_or_first(old(self).selected) as int].0,
                    )
                }),
                _ => *final(self) == *old(self) && a == Action::Edit,
            },
    {
        if self.popup {
            match k {
                Key::Esc => {
                    self.popup = false;
                    Action::Stay
                },
                Key::Char(c) => {
                    if c == 'q' {
                        Action::Quit
                    } else {
                        Action::Stay
                    }
                },
                _ => Action::Stay,
            }
        } else {
            match k {
                Key::Esc => {
                    self.popup = true;
                    Action::Stay
                },
                Key::Down => {
                    let n = self.results.len();
                    if n > 0 {
                        self.selected = match self.selected {
                            None => Some(0),
                            Some(i) => if i + 1 < n {
                                Some(i + 1)
                            } else {
                                Some(n - 1)
                            },
                        };
                    }
                    Action::Stay
                },
                Key::Up => {
                    let n = self.results.len();
                    if n > 0 {
                        self.selected = match self.selected {
                            None => Some(n - 1),
                            Some(i) => if i > 0 {
                                Some(i - 1)
                            } else {
                                Some(0)
                            },
                        };
                    }
                    Action::Stay
                },
                Key::Enter => {
                    let n = self.results.len();
                    if n == 0 {
                        Action::Stay
                    } else {
                        let i = match self.selected {
                            Some(i) => i,
                            None => 0,
                        };
                        self.selected = Some(i);
                        Action::Copy(self.results[i].0)
                    }
                },
                _ => Action::Edit,
            }
        }
    }
}

/// A rectangular region of the terminal, in cell coordinates.
#[derive(Clone, Copy, Debug, PartialEq, Eq, Structural)]
pub struct Rect {
    pub x: u16,
    pub y: u16,
    pub width: u16,
    pub height: u16,
}

impl Rect {
    /// The far edges of the region still fit in the coordinate space.
    pub open spec fn wf(self) -> bool {
        self.x + self.width <= u16::MAX && self.y + self.height <= u16::MAX
    }
}

/// The centered sub-rectangle of `area` taking `percent_x` percent of its
/// width and `percent_y` percent of its height, used to place the help
/// overlay over the result table.
pub fn popup_area(area: Rect, percent_x: u16, percent_y: u16) -> (r: Rect)
    requires
        percent_x <= 100,
        percent_y <= 100,
        area.wf(),
    ensures
        r.width == area.width * percent_x / 100,
        r.height == area.height * percent_y / 100,
        r.x == area.x + (area.width - r.width) / 2,
        r.y == area.y + (area.height - r.height) / 2,
        area.x <= r.x && r.x + r.width <= area.x + area.width,
        area.y <= r.y && r.y + r.height <= area.y + area.height,
        r.wf(),
{
    proof {
        assert(area.width * percent_x <= area.width * 100) by (nonlinear_arith)
            requires percent_x <= 100;
        assert(area.width * 100 / 100 == area.width);
        vstd::arithmetic::div_mod::lemma_div_is_ordered(
            area.width * percent_x, area.width * 100, 100);
        assert(area.height * percent_y <= area.height * 100) by (nonlinear_arith)
            requires percent_y <= 100;
        assert(area.height * 100 / 100 == area.height);
        vstd::arithmetic::div_mod::lemma_div_is_ordered(
            area.height * percent_y, area.height * 100, 100);
    }
    let w = ((area.width as u32) * (percent_x as u32) / 100) as u16;
    let h = ((area.height as u32) * (percent_y as u32) / 100) as u16;
    let x = area.x + (area.width - w) / 2;
    let y = area.y + (area.height - h) / 2;
    Rect { x, y, width: w, height: h }
}

} // verus!

