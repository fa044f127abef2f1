use vstd::prelude::*;
use crate::buffer::{SearchMatch, TextBuffer, search_result};
use crate::text::{push_char, pop_char, decimal, decimal_string, concat};
use crate::theme::{Segment, plain, plain_look};

verus! {

/// The state of the search bar: the query, whether the bar is open, the
/// matches found and which of them is current.
#[derive(Clone)]
pub struct SearchState {
    pub query: String,
    pub active: bool,
    pub matches: Vec<SearchMatch>,
    pub current_match: usize,
}

/// The abstract form of the search bar's state.
pub struct SearchModel {
    pub query: Seq<char>,
    pub active: bool,
    pub matches: Seq<SearchMatch>,
    pub current_match: usize,
}

impl SearchModel {
    /// The bar opened or closed; closing forgets the query and the matches.
    pub open spec fn toggled(self) -> SearchModel {
        if self.active {
            SearchModel { active: false, query: seq![], matches: seq![], current_match: 0 }
        } else {
            SearchModel { active: true, ..self }
        }
    }

    /// The next match made current, wrapping around.
    pub open spec fn advanced(self) -> SearchModel {
        if self.matches.len() == 0 {
            self
        } else {
            SearchModel {
                current_match: ((self.current_match + 1) % (self.matches.len() as int)) as usize,
                ..self
            }
        }
    }

    /// The previous match made current, wrapping around.
    pub open spec fn retreated(self) -> SearchModel {
        if self.matches.len() == 0 {
            self
        } else {
            SearchModel {
                current_match: if self.current_match == 0 {
                    (self.matches.len() - 1) as usize
                } else {
                    (self.current_match - 1) as usize
                },
                ..self
            }
        }
    }

    /// The current match, if it exists.
    pub open spec fn current(self) -> Option<SearchMatch> {
        if self.current_match < self.matches.len() {
            Some(self.matches[self.current_match as int])
        } else {
            None
        }
    }
}

impl View for SearchState {
    type V = SearchModel;

    open spec fn view(&self) -> SearchModel {
        SearchModel {
            query: self.query@,
            active: self.active,
            matches: self.matches@,
            current_match: self.current_match,
        }
    }
}

impl SearchState {
    pub fn new() -> (s: Self)
        ensures
            s.query@.len() == 0,
            !s.active,
            s.matches@.len() == 0,
            s.current_match == 0,
    {
        Self { query: String::new(), active: false, matches: Vec::new(), current_match: 0 }
    }

    /// Opens or closes the bar; closing forgets the query and the matches.
    pub fn toggle(&mut self)
        ensures
            final(self)@ == old(self)@.toggled(),
            final(self).active == !old(self).active,
            final(self).active ==> final(self).query@ == old(self).query@ && final(self).matches@
                == old(self).matches@ && final(self).current_match == old(self).current_match,
            !final(self).active ==> final(self).query@.len() == 0 && final(self).matches@.len() == 0
                && final(self).current_match == 0,
    {
        self.active = !self.active;
        if !self.active {
            self.query = String::new();
            self.matches.clear();
            self.current_match = 0;
        }
    }

    pub fn push_char(&mut self, ch: char)
        ensures
            final(self).query@ == old(self).query@.push(ch),
            final(self).active == old(self).active,
            final(self).matches@ == old(self).matches@,
            final(self).current_match == old(self).current_match,
    {
        push_char(&mut self.query, ch);
    }

    pub fn pop_char(&mut self)
        ensures
            final(self).query@ == (if old(self).query@.len() > 0 {
                old(self).query@.drop_last()
            } else {
                old(self).query@
            }),
            final(self).active == old(self).active,
            final(self).matches@ == old(self).matches@,
            final(self).current_match == old(self).current_match,
    {
        pop_char(&mut self.query);
    }

    /// Searches `buffer` for the query; the current match is kept where it
    /// still exists, else moved to the last match.
    pub fn run_search(&mut self, buffer: &TextBuffer)
        requires
            search_result(buffer@.lines, old(self).query@) is Some,
        ensures
            Some(final(self).matches@) == search_result(buffer@.lines, old(self).query@),
            final(self).current_match == (if final(self).matches@.len() == 0 {
                0
            } else if old(self).current_match < final(self).matches@.len() {
                old(self).current_match as int
            } else {
                final(self).matches@.len() - 1
            }),
            final(self).query@ == old(self).query@,
            final(self).active == old(self).active,
    {
        self.matches = buffer.find_all(self.query.as_str());
        self.current_match = if self.matches.len() == 0 {
            0
        } else if self.current_match < self.matches.len() - 1 {
            self.current_match
        } else {
            self.matches.len() - 1
        };
    }

    /// Runs the search where it is defined for the query; returns whether
    /// it ran. Otherwise nothing changes.
    pub fn try_run_search(&mut self, buffer: &TextBuffer) -> (ran: bool)
        ensures
            ran == search_result(buffer@.lines, old(self).query@) is Some,
            ran ==> Some(final(self).matches@) == search_result(buffer@.lines, old(self).query@),
            !ran ==> final(self).matches@ == old(self).matches@ && final(self).current_match == old(
                self,
            ).current_match,
            final(self).query@ == old(self).query@,
            final(self).active == old(self).active,
    {
        if buffer.scan_matches(self.query.as_str()).is_some() {
            self.run_search(buffer);
            true
        } else {
            false
        }
    }

    /// Moves to the next match, wrapping around; `None` when there are none.
    pub fn next_match(&mut self) -> (r: Option<&SearchMatch>)
        ensures
            final(self)@ == old(self)@.advanced(),
            r matches Some(m) ==> Some(*m) == final(self)@.current(),
            r is None <==> old(self)@.matches.len() == 0,
            old(self).matches@.len() == 0 ==> r is None && final(self).current_match == old(
                self,
            ).current_match,
            old(self).matches@.len() > 0 ==> final(self).current_match == (old(self).current_match
                + 1) % (old(self).matches@.len() as int) && r == Some(
                &old(self).matches@[final(self).current_match as int],
            ),
            final(self).matches@ == old(self).matches@,
            final(self).query@ == old(self).query@,
            final(self).active == old(self).active,
    {
        let n = self.matches.len();
        if n == 0 {
            return None;
        }
        let c = self.current_match;
        proof {
            vstd::arithmetic::div_mod::lemma_add_mod_noop(c as int, 1, n as int);
            vstd::arithmetic::div_mod::lemma_mod_bound(c as int, n as int);
            if n > 1 {
                vstd::arithmetic::div_mod::lemma_small_mod(1, n as nat);
            } else {
                vstd::arithmetic::div_mod::lemma_mod_bound((c + 1) as int, 1);
            }
        }
        self.current_match = if n == 1 {
            0
        } else {
            (c % n + 1) % n
        };
        Some(&self.matches[self.current_match])
    }

    /// Moves to the previous match, wrapping around; `None` when there are
    /// none.
    pub fn prev_match(&mut self) -> (r: Option<&SearchMatch>)
        requires
            old(self).matches@.len() == 0 || old(self).current_match <= old(self).matches@.len(),
        ensures
            final(self)@ == old(self)@.retreated(),
            r matches Some(m) ==> Some(*m) == final(self)@.current(),
            r is None <==> old(self)@.matches.len() == 0,
            old(self).matches@.len() == 0 ==> r is None && final(self).current_match == old(
                self,
            ).current_match,
            old(self).matches@.len() > 0 ==> final(self).current_match == (if old(
                self,
            ).current_match == 0 {
                old(self).matches@.len() - 1
            } else {
                old(self).current_match - 1
            }) && r == Some(&old(self).matches@[final(self).current_match as int]),
            final(self).matches@ == old(self).matches@,
            final(self).query@ == old(self).query@,
            final(self).active == old(self).active,
    {
        let n = self.matches.len();
        if n == 0 {
            return None;
        }
        self.current_match = if self.current_match == 0 {
            n - 1
        } else {
            self.current_match - 1
        };
        Some(&self.matches[self.current_match])
    }

    /// "No results", or the current match's number and the number of
    /// matches, as in "2/5".
    pub fn current_match_info(&self) -> (r: String)
        requires
            self.current_match < usize::MAX,
        ensures
            r@ == (if self.matches@.len() == 0 {
                "No results"@
            } else {
                decimal((self.current_match + 1) as nat) + "/"@ + decimal(self.matches@.len())
            }),
    {
        if self.matches.len() == 0 {
            String::from_str("No results")
        } else {
            let a = concat(decimal_string(self.current_match + 1).as_str(), "/");
            concat(a.as_str(), decimal_string(self.matches.len()).as_str())
        }
    }
}


impl SearchState {
    /// The search bar's text: "/", the query, and the match information
    /// between spaces, all in the default look.
    pub fn bar_segments(&self) -> (r: Vec<Segment>)
        requires
            self.current_match < usize::MAX,
        ensures
            r@.len() == 3,
            r@[0]@ == ("/"@, plain_look()),
            r@[1]@ == (self.query@, plain_look()),
            r@[2]@ == (" "@ + (if self.matches@.len() == 0 {
                "No results"@
            } else {
                decimal((self.current_match + 1) as nat) + "/"@ + decimal(self.matches@.len())
            }) + " "@, plain_look()),
    {
        let info = self.current_match_info();
        let a = concat(" ", info.as_str());
        let shown = concat(a.as_str(), " ");
        vec![
            Segment { text: String::from_str("/"), look: plain() },
            Segment { text: self.query.clone(), look: plain() },
            Segment { text: shown, look: plain() },
        ]
    }
}

} // verus!
