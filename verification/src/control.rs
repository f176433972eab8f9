//! Control messages: the structured lines by which a sandbox reports a
//! change of state, and their one canonical rendering.
//!
//! A control line is an object of three members in fixed order and spacing:
//! the name of the message's base class, the name of its class, which tells
//! the messages apart, and its properties, which are carried as they stand.

use vstd::prelude::*;
use vstd::string::*;
use crate::text::{chars_of, find_char, matches_at, occurs_at, strip_terminator};

verus! {

/// A control line taken apart.
#[derive(Debug)]
pub struct ControlMessage {
    /// The name of the base class, such as `Action`.
    pub base_class_name: String,
    /// The name of the class: the discriminator.
    pub class_name: String,
    /// The rendering of the properties, as it stood in the line.
    pub properties: String,
}

/// No double quote stands in `name`.
pub open spec fn quote_free(name: Seq<char>) -> bool {
    forall|i: int| 0 <= i < name.len() ==> name[i] != '"'
}

/// What stands before the base class name.
pub open spec fn opening() -> Seq<char> {
    "{ \"base_class_name\" : \""@
}

/// What stands between the base class name and the class name.
pub open spec fn middle() -> Seq<char> {
    "\", \"class_name\" : \""@
}

/// What stands between the class name and the properties.
pub open spec fn closing() -> Seq<char> {
    "\", \"properties\" : "@
}

/// What stands after the properties.
pub open spec fn ending() -> Seq<char> {
    " }"@
}

/// The canonical rendering of a control message.
pub open spec fn render_spec(base: Seq<char>, class: Seq<char>, properties: Seq<char>) -> Seq<
    char,
> {
    opening() + base + middle() + class + closing() + properties + ending()
}

/// `line` is the rendering of the control message with these parts, with or
/// without a terminator after it.
pub open spec fn is_control_line(
    line: Seq<char>,
    base: Seq<char>,
    class: Seq<char>,
    properties: Seq<char>,
) -> bool {
    &&& quote_free(base)
    &&& quote_free(class)
    &&& strip_terminator(line) == render_spec(base, class, properties)
}

/// The parts of the control message that `line` renders, if it renders one.
/// A line renders at most one message.
pub open spec fn control_parts_spec(line: Seq<char>) -> Option<(Seq<char>, Seq<char>, Seq<char>)> {
    if exists|b: Seq<char>, c: Seq<char>, p: Seq<char>| is_control_line(line, b, c, p) {
        Some(choose|parts: (Seq<char>, Seq<char>, Seq<char>)| is_control_line(line, parts.0, parts.1, parts.2))
    } else {
        None
    }
}

/// The class of the control message that `line` renders, if it renders one.
pub open spec fn control_class_spec(line: Seq<char>) -> Option<Seq<char>> {
    match control_parts_spec(line) {
        Some(parts) => Some(parts.1),
        None => None,
    }
}

/// Where the parts of a rendering stand in the text `s`.
spec fn shaped(s: Seq<char>, base: Seq<char>, class: Seq<char>, properties: Seq<char>) -> bool {
    let a = opening().len() as int;
    let q1 = a + base.len();
    let r = q1 + middle().len();
    let q2 = r + class.len();
    let k = q2 + closing().len();
    &&& s.len() == k + properties.len() + ending().len()
    &&& occurs_at(s, opening(), 0)
    &&& s.subrange(a, q1) == base
    &&& occurs_at(s, middle(), q1)
    &&& s.subrange(r, q2) == class
    &&& occurs_at(s, closing(), q2)
    &&& s.subrange(k, k + properties.len()) == properties
    &&& occurs_at(s, ending(), k + properties.len())
    &&& q1 < r
    &&& q2 < k
    &&& s[q1] == '"'
    &&& s[q2] == '"'
    &&& forall|j: int| a <= j < q1 ==> s[j] != '"'
    &&& forall|j: int| r <= j < q2 ==> s[j] != '"'
}

/// A control line has its parts where the rendering puts them.
proof fn lemma_control_line_shaped(
    line: Seq<char>,
    base: Seq<char>,
    class: Seq<char>,
    properties: Seq<char>,
)
    requires
        is_control_line(line, base, class, properties),
    ensures
        shaped(strip_terminator(line), base, class, properties),
{
    reveal_strlit("\", \"class_name\" : \"");
    reveal_strlit("\", \"properties\" : ");
    let s = render_spec(base, class, properties);
    let a = opening().len() as int;
    let q1 = a + base.len();
    let r = q1 + middle().len();
    let q2 = r + class.len();
    let k = q2 + closing().len();
    assert(s.subrange(0, a) =~= opening());
    assert(s.subrange(a, q1) =~= base);
    assert(s.subrange(q1, r) =~= middle());
    assert(s.subrange(r, q2) =~= class);
    assert(s.subrange(q2, k) =~= closing());
    assert(s.subrange(k, k + properties.len()) =~= properties);
    assert(s.subrange(k + properties.len(), s.len() as int) =~= ending());
    assert(s[q1] == middle()[0]);
    assert(s[q2] == closing()[0]);
    assert forall|j: int| a <= j < q1 implies s[j] != '"' by {
        assert(s[j] == base[j - a]);
    }
    assert forall|j: int| r <= j < q2 implies s[j] != '"' by {
        assert(s[j] == class[j - r]);
    }
}

/// A text that holds the fixed parts of a rendering, with quote-free names
/// between them, is the rendering of those names and of what stands where
/// the properties belong.
proof fn lemma_shape_is_rendering(s: Seq<char>, a: int, q1: int, r: int, q2: int, k: int, e: int)
    requires
        a == opening().len(),
        a <= q1,
        r == q1 + middle().len(),
        r <= q2,
        k == q2 + closing().len(),
        k <= e,
        e + ending().len() == s.len(),
        occurs_at(s, opening(), 0),
        occurs_at(s, middle(), q1),
        occurs_at(s, closing(), q2),
        occurs_at(s, ending(), e),
    ensures
        s == render_spec(s.subrange(a, q1), s.subrange(r, q2), s.subrange(k, e)),
{
    let base = s.subrange(a, q1);
    let class = s.subrange(r, q2);
    let properties = s.subrange(k, e);
    let rendered = render_spec(base, class, properties);
    assert(rendered.len() == s.len());
    assert forall|j: int| 0 <= j < s.len() implies s[j] == rendered[j] by {
        if j < a {
            assert(s.subrange(0, a)[j] == s[j]);
        } else if j < q1 {
            assert(base[j - a] == s[j]);
        } else if j < r {
            assert(s.subrange(q1, r)[j - q1] == s[j]);
        } else if j < q2 {
            assert(class[j - r] == s[j]);
        } else if j < k {
            assert(s.subrange(q2, k)[j - q2] == s[j]);
        } else if j < e {
            assert(properties[j - k] == s[j]);
        } else {
            assert(s.subrange(e, s.len() as int)[j - e] == s[j]);
        }
    }
    assert(s =~= rendered);
}

/// A line renders at most one control message.
pub proof fn lemma_control_line_unique(
    line: Seq<char>,
    base: Seq<char>,
    class: Seq<char>,
    properties: Seq<char>,
    other_base: Seq<char>,
    other_class: Seq<char>,
    other_properties: Seq<char>,
)
    requires
        is_control_line(line, base, class, properties),
        is_control_line(line, other_base, other_class, other_properties),
    ensures
        base == other_base,
        class == other_class,
        properties == other_properties,
{
    let s = strip_terminator(line);
    lemma_control_line_shaped(line, base, class, properties);
    lemma_control_line_shaped(line, other_base, other_class, other_properties);
    let a = opening().len() as int;
    assert(s[a + base.len()] == '"');
    assert(s[a + other_base.len()] == '"');
    assert(base.len() == other_base.len());
    let r = a + base.len() + middle().len();
    assert(s[r + class.len()] == '"');
    assert(s[r + other_class.len()] == '"');
    assert(class.len() == other_class.len());
}

/// Parsing undoes rendering: the rendering of a message with quote-free
/// names, with or without a terminator after it, is a control line with
/// exactly those parts.
pub proof fn lemma_parse_rendering(base: Seq<char>, class: Seq<char>, properties: Seq<char>)
    requires
        quote_free(base),
        quote_free(class),
    ensures
        control_parts_spec(render_spec(base, class, properties)) == Some(
            (base, class, properties),
        ),
        control_parts_spec(render_spec(base, class, properties).push('\n')) == Some(
            (base, class, properties),
        ),
{
    reveal_strlit(" }");
    let rendered = render_spec(base, class, properties);
    assert(rendered.last() == ending()[1]);
    assert(strip_terminator(rendered) == rendered);
    assert(strip_terminator(rendered.push('\n')) =~= rendered);
    let parts = (base, class, properties);
    assert(is_control_line(rendered, parts.0, parts.1, parts.2));
    assert(is_control_line(rendered.push('\n'), parts.0, parts.1, parts.2));
    let first = choose|parts: (Seq<char>, Seq<char>, Seq<char>)|
        is_control_line(rendered, parts.0, parts.1, parts.2);
    lemma_control_line_unique(rendered, first.0, first.1, first.2, base, class, properties);
    let second = choose|parts: (Seq<char>, Seq<char>, Seq<char>)|
        is_control_line(rendered.push('\n'), parts.0, parts.1, parts.2);
    lemma_control_line_unique(
        rendered.push('\n'),
        second.0,
        second.1,
        second.2,
        base,
        class,
        properties,
    );
}

/// Takes a control line apart. The result is the message that the line
/// renders, and nothing for a line that renders none.
pub fn parse_control(line: &str) -> (parsed: Option<ControlMessage>)
    ensures
        match parsed {
            Some(message) => control_parts_spec(line@) == Some(
                (message.base_class_name@, message.class_name@, message.properties@),
            ),
            None => control_parts_spec(line@) is None,
        },
{
    let mut s = chars_of(line);
    if s.len() > 0 && s[s.len() - 1] == '\n' {
        s.pop();
    }
    assert(s@ =~= strip_terminator(line@));
    let n = s.len();
    let head = chars_of("{ \"base_class_name\" : \"");
    let mid = chars_of("\", \"class_name\" : \"");
    let close = chars_of("\", \"properties\" : ");
    let end = chars_of(" }");
    if !matches_at(&s, &head, 0) {
        proof {
            assert forall|b: Seq<char>, c: Seq<char>, p: Seq<char>|
                !is_control_line(line@, b, c, p) by {
                if is_control_line(line@, b, c, p) {
                    lemma_control_line_shaped(line@, b, c, p);
                }
            }
        }
        return None;
    }
    let a = head.len();
    let q1 = match find_char(&s, a, '"') {
        Some(at) => at,
        None => {
            proof {
                assert forall|b: Seq<char>, c: Seq<char>, p: Seq<char>|
                    !is_control_line(line@, b, c, p) by {
                    if is_control_line(line@, b, c, p) {
                        lemma_control_line_shaped(line@, b, c, p);
                        assert(s@[a + b.len()] == '"');
                    }
                }
            }
            return None;
        },
    };
    proof {
        assert forall|b: Seq<char>, c: Seq<char>, p: Seq<char>|
            is_control_line(line@, b, c, p) implies q1 == a + b.len() by {
            lemma_control_line_shaped(line@, b, c, p);
            assert(s@[a + b.len()] == '"');
            assert(s@[q1 as int] == '"');
        }
    }
    if !matches_at(&s, &mid, q1) {
        proof {
            assert forall|b: Seq<char>, c: Seq<char>, p: Seq<char>|
                !is_control_line(line@, b, c, p) by {
                if is_control_line(line@, b, c, p) {
                    lemma_control_line_shaped(line@, b, c, p);
                }
            }
        }
        return None;
    }
    let r = q1 + mid.len();
    let q2 = match find_char(&s, r, '"') {
        Some(at) => at,
        None => {
            proof {
                assert forall|b: Seq<char>, c: Seq<char>, p: Seq<char>|
                    !is_control_line(line@, b, c, p) by {
                    if is_control_line(line@, b, c, p) {
                        lemma_control_line_shaped(line@, b, c, p);
                        assert(s@[r + c.len()] == '"');
                    }
                }
            }
            return None;
        },
    };
    proof {
        assert forall|b: Seq<char>, c: Seq<char>, p: Seq<char>|
            is_control_line(line@, b, c, p) implies q2 == r + c.len() by {
            lemma_control_line_shaped(line@, b, c, p);
            assert(s@[r + c.len()] == '"');
            assert(s@[q2 as int] == '"');
        }
    }
    if !matches_at(&s, &close, q2) {
        proof {
            assert forall|b: Seq<char>, c: Seq<char>, p: Seq<char>|
                !is_control_line(line@, b, c, p) by {
                if is_control_line(line@, b, c, p) {
                    lemma_control_line_shaped(line@, b, c, p);
                }
            }
        }
        return None;
    }
    let k = q2 + close.len();
    if n - k < end.len() {
        proof {
            assert forall|b: Seq<char>, c: Seq<char>, p: Seq<char>|
                !is_control_line(line@, b, c, p) by {
                if is_control_line(line@, b, c, p) {
                    lemma_control_line_shaped(line@, b, c, p);
                }
            }
        }
        return None;
    }
    let e = n - end.len();
    if !matches_at(&s, &end, e) {
        proof {
            assert forall|b: Seq<char>, c: Seq<char>, p: Seq<char>|
                !is_control_line(line@, b, c, p) by {
                if is_control_line(line@, b, c, p) {
                    lemma_control_line_shaped(line@, b, c, p);
                }
            }
        }
        return None;
    }
    let base = String::from_str(line.substring_char(a, q1));
    let class = String::from_str(line.substring_char(r, q2));
    let properties = String::from_str(line.substring_char(k, e));
    proof {
        assert(base@ =~= s@.subrange(a as int, q1 as int));
        assert(class@ =~= s@.subrange(r as int, q2 as int));
        assert(properties@ =~= s@.subrange(k as int, e as int));
        lemma_shape_is_rendering(s@, a as int, q1 as int, r as int, q2 as int, k as int, e as int);
        let found = (base@, class@, properties@);
        assert(is_control_line(line@, found.0, found.1, found.2));
        let chosen = choose|parts: (Seq<char>, Seq<char>, Seq<char>)|
            is_control_line(line@, parts.0, parts.1, parts.2);
        lemma_control_line_unique(
            line@,
            chosen.0,
            chosen.1,
            chosen.2,
            base@,
            class@,
            properties@,
        );
    }
    Some(ControlMessage { base_class_name: base, class_name: class, properties })
}

} // verus!
