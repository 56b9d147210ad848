//! Declarative window rules: which windows float, which workspace they
//! open on, and which go to the scratchpad.
use vstd::prelude::*;

use crate::text::chars_of;

verus! {

/// Settings a set of rules assigns to a window; `None` means "not set".
#[derive(Debug, Clone, Copy, PartialEq, Eq, Default, Structural)]
pub struct WindowRules {
    pub floating: Option<bool>,
    /// 1-based workspace number.
    pub workspace: Option<usize>,
    pub scratchpad: Option<bool>,
}

/// Which windows a rule applies to; an unset field matches everything.
pub struct RuleMatch {
    /// Exact app id (Wayland) or class (X11).
    pub class: Option<String>,
    /// Text the window title must contain.
    pub title: Option<String>,
}

/// One configured rule. A rule without a `match` part never applies.
pub struct RuleEntry {
    pub matcher: Option<RuleMatch>,
    pub set: Option<WindowRules>,
}

/// `needle` occurs in `hay` as a contiguous run of characters.
pub open spec fn contains_text(hay: Seq<char>, needle: Seq<char>) -> bool {
    exists|i: int| 0 <= i <= hay.len() - needle.len() && #[trigger] hay.subrange(i, i + needle.len()) == needle
}

/// The rule's match part accepts a window with this app id and title.
pub open spec fn rule_matches(m: RuleMatch, app_id: Seq<char>, title: Option<Seq<char>>) -> bool {
    let class_ok = match m.class {
        Some(c) => c@ == app_id,
        None => true,
    };
    let title_ok = match m.title {
        Some(t) => match title {
            Some(actual) => contains_text(actual, t@),
            None => false,
        },
        None => true,
    };
    class_ok && title_ok
}

/// `acc` updated by the settings of one matching rule: each setting the
/// rule gives replaces the earlier one.
pub open spec fn merge(acc: WindowRules, set: WindowRules) -> WindowRules {
    WindowRules {
        floating: if set.floating is Some { set.floating } else { acc.floating },
        workspace: if set.workspace is Some { set.workspace } else { acc.workspace },
        scratchpad: if set.scratchpad is Some { set.scratchpad } else { acc.scratchpad },
    }
}

/// The settings of all rules that match, later rules overriding earlier ones.
pub open spec fn evaluate(rules: Seq<RuleEntry>, app_id: Seq<char>, title: Option<Seq<char>>) -> WindowRules
    decreases rules.len(),
{
    if rules.len() == 0 {
        WindowRules { floating: None, workspace: None, scratchpad: None }
    } else {
        let acc = evaluate(rules.drop_last(), app_id, title);
        let r = rules.last();
        match r.matcher {
            Some(m) => if rule_matches(m, app_id, title) {
                match r.set {
                    Some(set) => merge(acc, set),
                    None => acc,
                }
            } else {
                acc
            },
            None => acc,
        }
    }
}

/// Whether `needle` occurs in `hay`.
pub fn text_contains(hay: &str, needle: &str) -> (r: bool)
    ensures
        r == contains_text(hay@, needle@),
{
    let h = chars_of(hay);
    let n = chars_of(needle);
    if n.len() > h.len() {
        return false;
    }
    if n.len() == 0 {
        assert(hay@.subrange(0int, 0int + needle@.len()) =~= needle@);
        return true;
    }
    let hl = h.len();
    let last = h.len() - n.len();
    let mut i: usize = 0;
    while i <= last
        invariant
            h@ == hay@,
            n@ == needle@,
            1 <= n@.len() <= h@.len(),
            hl == h@.len(),
            last == h@.len() - n@.len(),
            i <= last + 1,
            forall|k: int| 0 <= k < i ==> #[trigger] h@.subrange(k, k + n@.len()) != n@,
        decreases last + 1 - i,
    {
        let mut j: usize = 0;
        let mut same = true;
        while j < n.len()
            invariant
                h@ == hay@,
                n@ == needle@,
                1 <= n@.len() <= h@.len(),
                hl == h@.len(),
                i <= last,
                last == h@.len() - n@.len(),
                j <= n@.len(),
                same ==> forall|k: int| 0 <= k < j ==> h@[i + k] == n@[k],
                !same ==> h@.subrange(i as int, i + n@.len()) != n@,
            decreases n@.len() - j,
        {
            if h[i + j] != n[j] {
                same = false;
                proof {
                    assert(h@.subrange(i as int, i + n@.len())[j as int] == h@[i + j]);
                }
            }
            j = j + 1;
        }
        if same {
            proof {
                assert(h@.subrange(i as int, i + n@.len()) =~= n@);
            }
            return true;
        }
        i = i + 1;
    }
    proof {
        assert forall|k: int| 0 <= k <= h@.len() - n@.len() implies #[trigger] h@.subrange(k, k + n@.len()) != n@ by {}
    }
    false
}

fn matches_rule(m: &RuleMatch, app_id: &str, title: Option<&str>) -> (r: bool)
    ensures
        r == rule_matches(*m, app_id@, match title {
            Some(t) => Some(t@),
            None => None,
        }),
{
    let class_ok = match &m.class {
        Some(c) => crate::text::str_eq(c.as_str(), app_id),
        None => true,
    };
    let title_ok = match &m.title {
        Some(t) => match title {
            Some(actual) => text_contains(actual, t.as_str()),
            None => false,
        },
        None => true,
    };
    class_ok && title_ok
}

/// Evaluates window rules against a window's app id (or X11 class) and
/// title. Every rule whose match part accepts the window contributes its
/// settings, later rules overriding earlier ones.
pub fn evaluate_rules(rules: &Vec<RuleEntry>, app_id: &str, title: Option<&str>) -> (r: WindowRules)
    ensures
        r == evaluate(rules@, app_id@, match title {
            Some(t) => Some(t@),
            None => None,
        }),
{
    let ghost t = match title {
        Some(t) => Some(t@),
        None => None,
    };
    let mut result = WindowRules { floating: None, workspace: None, scratchpad: None };
    let mut i: usize = 0;
    while i < rules.len()
        invariant
            i <= rules@.len(),
            t == match title {
                Some(tt) => Some(tt@),
                None => None::<Seq<char>>,
            },
            result == evaluate(rules@.take(i as int), app_id@, t),
        decreases rules@.len() - i,
    {
        proof {
            assert(rules@.take(i + 1).drop_last() =~= rules@.take(i as int));
        }
        let rule = &rules[i];
        match &rule.matcher {
            Some(m) => {
                if matches_rule(m, app_id, title) {
                    match &rule.set {
                        Some(set) => {
                            if set.floating.is_some() {
                                result.floating = set.floating;
                            }
                            if set.workspace.is_some() {
                                result.workspace = set.workspace;
                            }
                            if set.scratchpad.is_some() {
                                result.scratchpad = set.scratchpad;
                            }
                        },
                        None => {},
                    }
                }
            },
            None => {},
        }
        i = i + 1;
    }
    proof {
        assert(rules@.take(i as int) =~= rules@);
    }
    result
}

/// Law: a rule's title text matches wherever it stands in the window
/// title: every title `a + t + b` contains `t`, and a title contains `t`
/// only when it is such a concatenation. So a rule matching on title text
/// `t` alone applies to a window whose title holds `t` anywhere.
pub proof fn title_text_matches_anywhere(a: Seq<char>, t: Seq<char>, b: Seq<char>, app_id: Seq<char>, title_rule: String)
    requires
        title_rule@ == t,
    ensures
        contains_text(a + t + b, t),
        rule_matches(RuleMatch { class: None, title: Some(title_rule) }, app_id, Some(a + t + b)),
        forall|h: Seq<char>|
            contains_text(h, t) ==> exists|x: Seq<char>, y: Seq<char>| h == #[trigger] (x + t + y),
{
    let h = a + t + b;
    assert(h.subrange(a.len() as int, (a.len() + t.len()) as int) =~= t);
    assert forall|h: Seq<char>| contains_text(h, t) implies exists|x: Seq<char>, y: Seq<char>|
        h == #[trigger] (x + t + y) by {
        let i = choose|i: int| 0 <= i <= h.len() - t.len() && #[trigger] h.subrange(i, i + t.len()) == t;
        let x = h.subrange(0, i);
        let y = h.subrange(i + t.len(), h.len() as int);
        assert(h =~= x + t + y);
    }
}

} // verus!
