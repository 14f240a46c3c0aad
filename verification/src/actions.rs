//! Element actions: what an action on a snapshot reference does before the
//! browser carries it out, and what it reports afterwards.
use vstd::prelude::*;
use crate::error::Error;
use crate::text::{debug_quoted, debug_string, decimal, decimal_string, eq_str, signed_decimal,
    signed_decimal_string};

verus! {

/// Action types.
pub enum ActionKind {
    /// Single click.
    Click,
    /// Double click.
    DoubleClick,
    /// Right click.
    RightClick,
    /// Type text.
    Type { text: String, clear_first: Option<bool> },
    /// Press a key.
    Press { key: String },
    /// Hover over element.
    Hover,
    /// Focus element.
    Focus,
    /// Select options.
    Select { values: Vec<String> },
    /// Scroll page.
    Scroll { direction: Option<String>, amount: Option<i32> },
    /// Wait.
    Wait { timeout_ms: Option<u64> },
    /// Drag element onto another.
    Drag { target_ref_id: String },
}

/// Action execution result.
pub struct ActionResult {
    /// Whether the action succeeded.
    pub success: bool,
    /// Result message.
    pub message: String,
}

/// The CSS selector of the element that carries a snapshot reference
/// (and, when given, the snapshot id it was taken in).
pub open spec fn selector_of(ref_id: Seq<char>, snapshot_id: Option<Seq<char>>) -> Seq<char> {
    match snapshot_id {
        Some(s) => "[data-agent-ref="@ + debug_quoted(ref_id) + "][data-agent-snapshot="@
            + debug_quoted(s) + "]"@,
        None => "[data-agent-ref="@ + debug_quoted(ref_id) + "]"@,
    }
}

/// The CSS selector of the element that carries a snapshot reference.
pub fn element_selector(ref_id: &str, snapshot_id: Option<&str>) -> (r: String)
    ensures
        r@ == selector_of(
            ref_id@,
            match snapshot_id {
                Some(s) => Some(s@),
                None => None,
            },
        ),
{
    let mut r = String::from_str("[data-agent-ref=");
    let q = debug_string(ref_id);
    r.append(q.as_str());
    match snapshot_id {
        Some(s) => {
            r.append("][data-agent-snapshot=");
            let qs = debug_string(s);
            r.append(qs.as_str());
            r.append("]");
        },
        None => {
            r.append("]");
        },
    }
    r
}

/// The window scroll of a scroll action: the offsets and the result message.
pub struct ScrollPlan {
    pub dx: i32,
    pub dy: i32,
    pub message: String,
}

/// The scroll offsets for a direction and a distance.
pub open spec fn scroll_offsets(direction: Seq<char>, n: int) -> Option<(int, int)> {
    if direction == "up"@ {
        Some((0, -n))
    } else if direction == "down"@ {
        Some((0, n))
    } else if direction == "left"@ {
        Some((-n, 0))
    } else if direction == "right"@ {
        Some((n, 0))
    } else {
        None
    }
}

/// The result of planning a scroll: the offsets and message for a known
/// direction (`down` by default) over `amount` pixels (300 by default), or
/// an invalid-parameter error naming the direction.
pub open spec fn scroll_outcome(direction: Option<Seq<char>>, amount: Option<i32>, r: Result<ScrollPlan, Error>) -> bool {
    let n: int = match amount {
        Some(a) => a as int,
        None => 300,
    };
    let dir = match direction {
        Some(d) => d,
        None => "down"@,
    };
    match scroll_offsets(dir, n) {
        Some(o) => r matches Ok(p) && p.dx == o.0 && p.dy == o.1 && p.message@ == "Scrolled "@ + dir
            + " by "@ + signed_decimal(n) + "px"@,
        None => r matches Err(Error::InvalidParameter(m)) && m@ == "Invalid scroll direction '"@
            + dir + "'. Must be one of: up, down, left, right"@,
    }
}

/// A scroll's distance can be taken for its direction: scrolling up or left
/// negates the amount, which must then not be `i32::MIN`.
pub open spec fn scroll_in_range(direction: Option<Seq<char>>, amount: Option<i32>) -> bool {
    let dir = match direction {
        Some(d) => d,
        None => "down"@,
    };
    let n: int = match amount {
        Some(a) => a as int,
        None => 300,
    };
    (dir == "up"@ || dir == "left"@) ==> n > i32::MIN
}

/// The direction of a scroll action, as text.
pub open spec fn direction_of(direction: Option<String>) -> Option<Seq<char>> {
    match direction {
        Some(d) => Some(d@),
        None => None,
    }
}

/// An action whose scroll, if it is one, is in range.
pub open spec fn action_in_range(action: ActionKind) -> bool {
    action matches ActionKind::Scroll { direction, amount } ==> scroll_in_range(direction_of(direction), amount)
}

/// Plans a scroll: `direction` defaults to `down` and `amount` to 300.
pub fn scroll_plan(direction: Option<&str>, amount: Option<i32>) -> (r: Result<ScrollPlan, Error>)
    requires
        scroll_in_range(
            match direction {
                Some(d) => Some(d@),
                None => None,
            },
            amount,
        ),
    ensures
        scroll_outcome(
            match direction {
                Some(d) => Some(d@),
                None => None,
            },
            amount,
            r,
        ),
{
    let n: i32 = match amount {
        Some(a) => a,
        None => 300,
    };
    let dir: &str = match direction {
        Some(d) => d,
        None => "down",
    };
    let d = String::from_str(dir);
    let (dx, dy): (i32, i32) = if eq_str(&d, "up") {
        (0, -n)
    } else if eq_str(&d, "down") {
        (0, n)
    } else if eq_str(&d, "left") {
        (-n, 0)
    } else if eq_str(&d, "right") {
        (n, 0)
    } else {
        let mut m = String::from_str("Invalid scroll direction '");
        m.append(dir);
        m.append("'. Must be one of: up, down, left, right");
        return Err(Error::InvalidParameter(m));
    };
    let mut message = String::from_str("Scrolled ");
    message.append(dir);
    message.append(" by ");
    let num = signed_decimal_string(n as i64);
    message.append(num.as_str());
    message.append("px");
    Ok(ScrollPlan { dx, dy, message })
}

/// What carrying out an action takes.
pub enum ActionStep {
    /// Drag the source element onto the target element.
    Drag { source: String, target: String },
    /// Scroll the window.
    Scroll(ScrollPlan),
    /// Wait for `ms` milliseconds, then report `message`.
    Wait { ms: u64, message: String },
    /// A mouse action (click, double click, right click, hover) on an element.
    Pointer { selector: String },
    /// Another element action; `editable` when the element must accept text.
    Element { selector: String, editable: bool },
}

/// Decides how an action on `ref_id` is carried out: drags address both
/// elements, scrolls and waits need no element, mouse actions go through
/// the pointer, the rest act on the element (which must be editable for
/// typing).
pub fn action_step(ref_id: &str, action: &ActionKind, snapshot_id: Option<&str>) -> (r: Result<ActionStep, Error>)
    requires
        action_in_range(*action),
    ensures
        ({
            let sid = match snapshot_id {
                Some(s) => Some(s@),
                None => None,
            };
            match *action {
                ActionKind::Drag { target_ref_id } => r matches Ok(ActionStep::Drag { source, target })
                    && source@ == selector_of(ref_id@, sid) && target@ == selector_of(target_ref_id@, sid),
                ActionKind::Scroll { direction, amount } => {
                    let plan: Result<ScrollPlan, Error> = match r {
                        Ok(ActionStep::Scroll(p)) => Ok(p),
                        Ok(_) => Err(Error::NotLaunched),
                        Err(e) => Err(e),
                    };
                    scroll_outcome(
                        match direction {
                            Some(d) => Some(d@),
                            None => None,
                        },
                        amount,
                        plan,
                    ) && !(r matches Ok(ActionStep::Drag { .. }) || r matches Ok(ActionStep::Wait { .. })
                        || r matches Ok(ActionStep::Pointer { .. }) || r matches Ok(ActionStep::Element { .. }))
                },
                ActionKind::Wait { timeout_ms } => r matches Ok(ActionStep::Wait { ms, message })
                    && ms == (match timeout_ms {
                        Some(t) => t,
                        None => 1000,
                    }) && message@ == "Waited "@ + decimal(ms as nat) + "ms"@,
                ActionKind::Click | ActionKind::DoubleClick | ActionKind::RightClick | ActionKind::Hover =>
                    r matches Ok(ActionStep::Pointer { selector }) && selector@ == selector_of(ref_id@, sid),
                ActionKind::Type { .. } => r matches Ok(ActionStep::Element { selector, editable })
                    && selector@ == selector_of(ref_id@, sid) && editable,
                _ => r matches Ok(ActionStep::Element { selector, editable })
                    && selector@ == selector_of(ref_id@, sid) && !editable,
            }
        }),
{
    match action {
        ActionKind::Drag { target_ref_id } => {
            let source = element_selector(ref_id, snapshot_id);
            let target = element_selector(target_ref_id.as_str(), snapshot_id);
            Ok(ActionStep::Drag { source, target })
        },
        ActionKind::Scroll { direction, amount } => {
            let dir: Option<&str> = match direction {
                Some(d) => Some(d.as_str()),
                None => None,
            };
            match scroll_plan(dir, *amount) {
                Ok(p) => Ok(ActionStep::Scroll(p)),
                Err(e) => Err(e),
            }
        },
        ActionKind::Wait { timeout_ms } => {
            let ms: u64 = match timeout_ms {
                Some(t) => *t,
                None => 1000,
            };
            let mut message = String::from_str("Waited ");
            let d = decimal_string(ms);
            message.append(d.as_str());
            message.append("ms");
            Ok(ActionStep::Wait { ms, message })
        },
        ActionKind::Click | ActionKind::DoubleClick | ActionKind::RightClick | ActionKind::Hover => {
            Ok(ActionStep::Pointer { selector: element_selector(ref_id, snapshot_id) })
        },
        ActionKind::Type { .. } => {
            Ok(ActionStep::Element { selector: element_selector(ref_id, snapshot_id), editable: true })
        },
        _ => Ok(ActionStep::Element { selector: element_selector(ref_id, snapshot_id), editable: false }),
    }
}

/// Debug rendering of a list of strings: `["a", "b"]`.
pub open spec fn debug_list(values: Seq<Seq<char>>) -> Seq<char> {
    "["@ + debug_items(values) + "]"@
}

/// Debug renderings of strings joined by `, `.
pub open spec fn debug_items(values: Seq<Seq<char>>) -> Seq<char>
    decreases values.len(),
{
    if values.len() == 0 {
        Seq::empty()
    } else if values.len() == 1 {
        debug_quoted(values[0])
    } else {
        debug_items(values.drop_last()) + ", "@ + debug_quoted(values.last())
    }
}

/// Renders a list of strings as debug output prints it.
pub fn format_debug_list(values: &Vec<String>) -> (r: String)
    ensures
        r@ == debug_list(Seq::new(values@.len(), |i: int| values@[i]@)),
{
    let ghost all = Seq::new(values@.len(), |i: int| values@[i]@);
    let mut inner = String::new();
    let mut i: usize = 0;
    while i < values.len()
        invariant
            i <= values.len(),
            all == Seq::new(values@.len(), |i: int| values@[i]@),
            inner@ == debug_items(all.take(i as int)),
        decreases values.len() - i,
    {
        if i > 0 {
            inner.append(", ");
        }
        let q = debug_string(values[i].as_str());
        inner.append(q.as_str());
        proof {
            let t = all.take(i + 1);
            assert(t.drop_last() =~= all.take(i as int));
            assert(t.last() == values@[i as int]@);
            if i == 0 {
                assert(all.take(0) =~= Seq::<Seq<char>>::empty());
            }
        }
        i = i + 1;
    }
    proof {
        assert(all.take(all.len() as int) =~= all);
    }
    let mut r = String::from_str("[");
    r.append(inner.as_str());
    r.append("]");
    r
}

/// The message of a completed element action.
pub open spec fn element_message(action: ActionKind) -> Option<Seq<char>> {
    match action {
        ActionKind::Click => Some("Clicked"@),
        ActionKind::DoubleClick => Some("Double-clicked"@),
        ActionKind::RightClick => Some("Right-clicked"@),
        ActionKind::Type { text, .. } => Some("Typed "@ + decimal(text@.len()) + " characters"@),
        ActionKind::Press { key } => Some("Pressed: "@ + key@),
        ActionKind::Hover => Some("Hovered"@),
        ActionKind::Focus => Some("Focused"@),
        ActionKind::Select { values } => Some("Selected: "@ + debug_list(
            Seq::new(values@.len(), |i: int| values@[i]@),
        )),
        _ => None,
    }
}

/// The message of a completed element action; scrolls, waits and drags
/// report elsewhere and are refused here.
pub fn element_action_message(action: &ActionKind) -> (r: Result<String, Error>)
    ensures
        match element_message(*action) {
            Some(m) => r matches Ok(s) && s@ == m,
            None => r matches Err(Error::Other(_)),
        },
{
    match action {
        ActionKind::Click => Ok(String::from_str("Clicked")),
        ActionKind::DoubleClick => Ok(String::from_str("Double-clicked")),
        ActionKind::RightClick => Ok(String::from_str("Right-clicked")),
        ActionKind::Type { text, .. } => {
            let mut m = String::from_str("Typed ");
            let n = text.as_str().unicode_len();
            let d = decimal_string(n as u64);
            m.append(d.as_str());
            m.append(" characters");
            Ok(m)
        },
        ActionKind::Press { key } => {
            let mut m = String::from_str("Pressed: ");
            m.append(key.as_str());
            Ok(m)
        },
        ActionKind::Hover => Ok(String::from_str("Hovered")),
        ActionKind::Focus => Ok(String::from_str("Focused")),
        ActionKind::Select { values } => {
            let mut m = String::from_str("Selected: ");
            let l = format_debug_list(values);
            m.append(l.as_str());
            Ok(m)
        },
        _ => Err(Error::Other(String::from_str("Action must be handled before element dispatch"))),
    }
}

/// The download script up to the URL.
pub const DOWNLOAD_SCRIPT_HEAD: &'static str = "\n            (function() {\n                const a = document.createElement('a');\n                a.href = ";

/// The download script after the URL.
pub const DOWNLOAD_SCRIPT_TAIL: &'static str = ";\n                a.download = '';\n                a.style.display = 'none';\n                document.body.appendChild(a);\n                a.click();\n                document.body.removeChild(a);\n                return true;\n            })()\n            ";

/// The script that downloads `url` through a hidden link.
pub open spec fn download_script_text(url: Seq<char>) -> Seq<char> {
    DOWNLOAD_SCRIPT_HEAD@ + debug_quoted(url) + DOWNLOAD_SCRIPT_TAIL@
}

/// The script that downloads `url` through a hidden link (the URL is
/// quoted and escaped as a string literal).
pub fn download_script(url: &str) -> (r: String)
    ensures
        r@ == download_script_text(url@),
{
    let mut s = String::from_str(DOWNLOAD_SCRIPT_HEAD);
    let q = debug_string(url);
    s.append(q.as_str());
    s.append(DOWNLOAD_SCRIPT_TAIL);
    s
}

} // verus!
