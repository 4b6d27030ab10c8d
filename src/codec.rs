//! Splitting a relay payload of back-to-back JSON objects into the object texts.
use vstd::prelude::*;

verus! {

/// Whether a text is one well-formed JSON value.
pub uninterp spec fn json_valid(text: Seq<char>) -> bool;

/// Relies on `serde_json::from_str::<serde_json::Value>`: it succeeds exactly on
/// texts that hold one JSON value.
#[verifier::external_body]
fn json_is_valid(text: &str) -> (r: bool)
    ensures
        r == json_valid(text@),
{
    serde_json::from_str::<serde_json::Value>(text).is_ok()
}

/// Relies on `String: FromIterator<char>`: the string holds the characters in order.
#[verifier::external_body]
fn string_of_chars(cs: &Vec<char>) -> (r: String)
    ensures
        r@ == cs@,
{
    cs.iter().collect()
}

/// Why a relay payload could not be split into objects.
#[derive(Debug, Clone, PartialEq, Eq)]
pub enum CodecError {
    /// The opening and closing braces outside strings do not match up.
    UnbalancedBraces,
    /// Text is left over after the last complete object.
    IncompleteObject,
    /// A complete object (its text given) is not valid JSON.
    MalformedObject(String),
}

/// The state of the tokenizer after a prefix of the payload.
pub struct Scan {
    /// Brace depth outside strings; it may go below zero on a stray `}`.
    pub depth: int,
    pub in_string: bool,
    /// The previous character was a backslash inside a string.
    pub escape: bool,
    /// Text of the object being read.
    pub cur: Seq<char>,
    /// Objects completed so far, in order.
    pub objects: Seq<Seq<char>>,
    /// The first complete object that was not valid JSON; once set the scan stops.
    pub malformed: Option<Seq<char>>,
}

/// Whitespace that separates objects at depth zero.
pub open spec fn is_separator(c: char) -> bool {
    c == ' ' || c == '\t' || c == '\n' || c == '\r'
}

pub open spec fn scan_start() -> Scan {
    Scan { depth: 0, in_string: false, escape: false, cur: seq![], objects: seq![], malformed: None }
}

/// The tokenizer's reaction to one character.
pub open spec fn scan_step(s: Scan, c: char) -> Scan {
    if s.malformed is Some {
        s
    } else if s.escape {
        Scan { escape: false, cur: s.cur.push(c), ..s }
    } else if c == '\\' && s.in_string {
        Scan { escape: true, cur: s.cur.push(c), ..s }
    } else if c == '"' {
        Scan { in_string: !s.in_string, cur: s.cur.push(c), ..s }
    } else if c == '{' && !s.in_string {
        Scan { depth: s.depth + 1, cur: s.cur.push(c), ..s }
    } else if c == '}' && !s.in_string {
        if s.depth - 1 == 0 {
            if json_valid(s.cur.push(c)) {
                Scan { depth: 0, cur: seq![], objects: s.objects.push(s.cur.push(c)), ..s }
            } else {
                Scan { depth: 0, cur: s.cur.push(c), malformed: Some(s.cur.push(c)), ..s }
            }
        } else {
            Scan { depth: s.depth - 1, cur: s.cur.push(c), ..s }
        }
    } else if is_separator(c) && !s.in_string && s.depth == 0 {
        s
    } else {
        Scan { cur: s.cur.push(c), ..s }
    }
}

/// The tokenizer run over a text from a given state.
pub open spec fn scan_from(s: Scan, text: Seq<char>) -> Scan
    decreases text.len(),
{
    if text.len() == 0 {
        s
    } else {
        scan_from(scan_step(s, text[0]), text.drop_first())
    }
}

pub open spec fn scan(text: Seq<char>) -> Scan {
    scan_from(scan_start(), text)
}

proof fn lemma_scan_concat(s: Scan, a: Seq<char>, b: Seq<char>)
    ensures
        scan_from(s, a + b) == scan_from(scan_from(s, a), b),
    decreases a.len(),
{
    if a.len() == 0 {
        assert(a + b =~= b);
    } else {
        assert((a + b).drop_first() =~= a.drop_first() + b);
        assert((a + b)[0] == a[0]);
        lemma_scan_concat(scan_step(s, a[0]), a.drop_first(), b);
    }
}

proof fn lemma_scan_frozen(s: Scan, t: Seq<char>)
    requires
        s.malformed is Some,
    ensures
        scan_from(s, t) == s,
    decreases t.len(),
{
    if t.len() > 0 {
        lemma_scan_frozen(scan_step(s, t[0]), t.drop_first());
    }
}

/// A text that the tokenizer, run on it alone, reads as exactly one complete object.
pub open spec fn is_object_text(o: Seq<char>) -> bool {
    scan(o) == clean_with(seq![o])
}

/// The tokenizer between objects, having read `acc`.
pub open spec fn clean_with(acc: Seq<Seq<char>>) -> Scan {
    Scan { objects: acc, ..scan_start() }
}

pub open spec fn all_separators(w: Seq<char>) -> bool {
    forall|k: int| 0 <= k < w.len() ==> is_separator(#[trigger] w[k])
}

/// `seps[0] + objs[0] + seps[1] + ... + objs[n-1] + seps[n]`.
pub open spec fn relay_text(objs: Seq<Seq<char>>, seps: Seq<Seq<char>>) -> Seq<char>
    decreases objs.len(),
{
    if objs.len() == 0 || seps.len() == 0 {
        if seps.len() == 0 { seq![] } else { seps[0] }
    } else {
        relay_text(objs.drop_last(), seps.drop_last()) + objs.last() + seps.last()
    }
}

pub open spec fn with_prefix(s: Scan, p: Seq<Seq<char>>) -> Scan {
    Scan { objects: p + s.objects, ..s }
}

pub open spec fn cleared(s: Scan) -> Scan {
    Scan { objects: seq![], ..s }
}

proof fn lemma_step_prefix(s: Scan, c: char)
    ensures
        scan_step(s, c) == with_prefix(scan_step(cleared(s), c), s.objects),
{
    let a = scan_step(s, c);
    let b = with_prefix(scan_step(cleared(s), c), s.objects);
    assert(a.objects =~= b.objects);
    assert(a.cur =~= b.cur);
}

/// The tokenizer's treatment of a text does not depend on the objects already read.
proof fn lemma_scan_prefix(s: Scan, t: Seq<char>)
    ensures
        scan_from(s, t) == with_prefix(scan_from(cleared(s), t), s.objects),
    decreases t.len(),
{
    if t.len() == 0 {
        assert(s.objects + Seq::<Seq<char>>::empty() =~= s.objects);
    } else {
        let c = t[0];
        let rest = t.drop_first();
        let s1 = scan_step(s, c);
        let s2 = scan_step(cleared(s), c);
        lemma_step_prefix(s, c);
        lemma_scan_prefix(s1, rest);
        lemma_scan_prefix(s2, rest);
        assert(cleared(s1) == cleared(s2));
        let y = scan_from(cleared(s2), rest);
        assert(s.objects + (s2.objects + y.objects) =~= (s.objects + s2.objects) + y.objects);
    }
}

proof fn lemma_scan_separators(acc: Seq<Seq<char>>, w: Seq<char>)
    requires
        all_separators(w),
    ensures
        scan_from(clean_with(acc), w) == clean_with(acc),
    decreases w.len(),
{
    if w.len() > 0 {
        assert(is_separator(w[0]));
        assert forall|k: int| 0 <= k < w.drop_first().len() implies is_separator(
            #[trigger] w.drop_first()[k],
        ) by {
            assert(w.drop_first()[k] == w[k + 1]);
        }
        lemma_scan_separators(acc, w.drop_first());
    }
}

/// Objects that each read alone as one object, joined by separating whitespace,
/// are read back as exactly that sequence of objects, in order.
pub proof fn lemma_relay_round_trip(objs: Seq<Seq<char>>, seps: Seq<Seq<char>>)
    requires
        seps.len() == objs.len() + 1,
        forall|k: int| 0 <= k < objs.len() ==> is_object_text(#[trigger] objs[k]),
        forall|k: int| 0 <= k < seps.len() ==> all_separators(#[trigger] seps[k]),
    ensures
        scan(relay_text(objs, seps)) == clean_with(objs),
    decreases objs.len(),
{
    if objs.len() == 0 {
        assert(all_separators(seps[0]));
        lemma_scan_separators(seq![], seps[0]);
        assert(objs =~= seq![]);
        assert(relay_text(objs, seps) == seps[0]);
    } else {
        let front = objs.drop_last();
        let fseps = seps.drop_last();
        assert forall|k: int| 0 <= k < front.len() implies is_object_text(#[trigger] front[k]) by {
            assert(front[k] == objs[k]);
        }
        assert forall|k: int| 0 <= k < fseps.len() implies all_separators(#[trigger] fseps[k]) by {
            assert(fseps[k] == seps[k]);
        }
        lemma_relay_round_trip(front, fseps);
        let a = relay_text(front, fseps);
        let o = objs.last();
        let w = seps.last();
        assert(is_object_text(objs[objs.len() - 1]));
        assert(all_separators(seps[seps.len() - 1]));
        lemma_scan_concat(scan_start(), a + o, w);
        lemma_scan_concat(scan_start(), a, o);
        let mid = clean_with(front);
        lemma_scan_prefix(mid, o);
        assert(cleared(mid) == scan_start());
        assert(front + seq![o] =~= objs);
        lemma_scan_separators(objs, w);
    }
}

/// Splits a relay payload into the texts of the JSON objects it holds, in order.
/// Separating whitespace at depth zero is dropped; text inside objects is kept as is.
pub fn parse_space_separated_json(data: &str) -> (r: Result<Vec<String>, CodecError>)
    requires
        data@.len() <= isize::MAX,
    ensures
        ({
            let s = scan(data@);
            match r {
                Ok(objs) => s.malformed is None && s.depth == 0 && s.cur.len() == 0
                    && objs.deep_view() == s.objects,
                Err(CodecError::MalformedObject(t)) => s.malformed == Some(t@),
                Err(CodecError::UnbalancedBraces) => s.malformed is None && s.depth != 0,
                Err(CodecError::IncompleteObject) => s.malformed is None && s.depth == 0
                    && s.cur.len() > 0,
            }
        }),
{
    let n = data.unicode_len();
    let mut objects: Vec<String> = Vec::new();
    let mut cur: Vec<char> = Vec::new();
    let mut depth: isize = 0;
    let mut in_string = false;
    let mut escape = false;
    let mut i: usize = 0;
    while i < n
        invariant
            n == data@.len(),
            n <= isize::MAX,
            0 <= i <= n,
            -(i as int) <= depth <= i as int,
            ({
                let s = scan(data@.take(i as int));
                &&& s.malformed is None
                &&& s.depth == depth as int
                &&& s.in_string == in_string
                &&& s.escape == escape
                &&& s.cur == cur@
                &&& s.objects == objects.deep_view()
            }),
        decreases n - i,
    {
        let ghost before = scan(data@.take(i as int));
        let ch = data.get_char(i);
        proof {
            assert(data@.take(i as int + 1) =~= data@.take(i as int) + seq![ch]);
            lemma_scan_concat(scan_start(), data@.take(i as int), seq![ch]);
            assert(seq![ch].drop_first() =~= Seq::<char>::empty());
            assert(seq![ch][0] == ch);
            assert(scan_from(scan_step(before, ch), Seq::<char>::empty()) == scan_step(before, ch));
            assert(scan_from(before, seq![ch]) == scan_step(before, ch));
        }
        let ghost after = scan_step(before, ch);
        assert(scan(data@.take(i as int + 1)) == after);
        if escape {
            cur.push(ch);
            escape = false;
        } else if ch == '\\' && in_string {
            escape = true;
            cur.push(ch);
        } else if ch == '"' {
            in_string = !in_string;
            cur.push(ch);
        } else if ch == '{' && !in_string {
            depth = depth + 1;
            cur.push(ch);
        } else if ch == '}' && !in_string {
            depth = depth - 1;
            cur.push(ch);
            if depth == 0 {
                let text = string_of_chars(&cur);
                if !json_is_valid(text.as_str()) {
                    proof {
                        lemma_scan_concat(scan_start(), data@.take(i as int + 1), data@.skip(i as int + 1));
                        assert(data@.take(i as int + 1) + data@.skip(i as int + 1) =~= data@);
                        lemma_scan_frozen(after, data@.skip(i as int + 1));
                    }
                    return Err(CodecError::MalformedObject(text));
                }
                let ghost old_objects = objects.deep_view();
                objects.push(text);
                cur = Vec::new();
                proof {
                    assert(objects.deep_view() =~= old_objects.push(text@));
                }
            }
        } else if (ch == ' ' || ch == '\t' || ch == '\n' || ch == '\r') && !in_string && depth == 0 {
        } else {
            cur.push(ch);
        }
        i = i + 1;
    }
    proof {
        assert(data@.take(n as int) =~= data@);
    }
    if depth != 0 {
        return Err(CodecError::UnbalancedBraces);
    }
    if cur.len() > 0 {
        return Err(CodecError::IncompleteObject);
    }
    Ok(objects)
}

} // verus!
