//! Rendered results of one interaction, keyed by MIME type.
use vstd::prelude::*;
use crate::text::{pairs_map, pairs_view, push_char, chars_of, str_eq};

verus! {

/// Content by MIME type, plus the elapsed time in milliseconds when timing
/// display is on. Entries are kept in insertion order; where two share a MIME
/// type, the later one is the content of that type.
pub struct EvalOutputs {
    pub content_by_mime_type: Vec<(String, String)>,
    pub timing: Option<u64>,
}

impl View for EvalOutputs {
    type V = Map<Seq<char>, Seq<char>>;

    open spec fn view(&self) -> Map<Seq<char>, Seq<char>> {
        pairs_map(pairs_view(self.content_by_mime_type@))
    }
}

impl EvalOutputs {
    /// No content and no timing.
    pub fn new() -> (r: EvalOutputs)
        ensures
            r@ == Map::<Seq<char>, Seq<char>>::empty(),
            r.timing is None,
    {
        EvalOutputs { content_by_mime_type: Vec::new(), timing: None }
    }

    /// Sets the content of one MIME type, replacing what it held.
    pub fn insert(&mut self, mime_type: String, content: String)
        ensures
            final(self)@ == old(self)@.insert(mime_type@, content@),
            final(self).timing == old(self).timing,
    {
        self.content_by_mime_type.push((mime_type, content));
        proof {
            assert(pairs_view(self.content_by_mime_type@).drop_last() =~= pairs_view(
                old(self).content_by_mime_type@,
            ));
        }
    }

    /// Plain text together with an HTML rendering of the same thing.
    pub fn text_html(text: String, html: String) -> (r: EvalOutputs)
        ensures
            r@ == map![text_plain() => text@, text_html() => html@],
            r.timing is None,
    {
        let mut r = EvalOutputs::new();
        r.insert(String::from_str("text/plain"), text);
        r.insert(String::from_str("text/html"), html);
        proof {
            reveal_strlit("text/plain");
            reveal_strlit("text/html");
        }
        assert(r@ =~= map![text_plain() => text@, text_html() => html@]);
        r
    }

    /// Adds the content of `other`; on a MIME type that both hold, `other`
    /// wins. A timing in `other` replaces this one.
    pub fn merge(&mut self, other: EvalOutputs)
        ensures
            final(self)@ == old(self)@.union_prefer_right(other@),
            final(self).timing == (if other.timing is Some { other.timing } else { old(self).timing }),
    {
        let n = other.content_by_mime_type.len();
        let mut i: usize = 0;
        while i < n
            invariant
                n == other.content_by_mime_type@.len(),
                i <= n,
                self.timing == old(self).timing,
                self@ == old(self)@.union_prefer_right(
                    pairs_map(pairs_view(other.content_by_mime_type@.subrange(0, i as int))),
                ),
            decreases n - i,
        {
            let entry = &other.content_by_mime_type[i];
            self.insert(entry.0.clone(), entry.1.clone());
            proof {
                let pre = pairs_view(other.content_by_mime_type@.subrange(0, i as int));
                let post = pairs_view(other.content_by_mime_type@.subrange(0, i + 1));
                assert(post.drop_last() =~= pre);
                assert(self@ =~= old(self)@.union_prefer_right(pairs_map(post)));
            }
            i += 1;
        }
        assert(other.content_by_mime_type@.subrange(0, n as int) =~= other.content_by_mime_type@);
        if other.timing.is_some() {
            self.timing = other.timing;
        }
    }

    /// The content of one MIME type.
    pub fn get(&self, mime_type: &str) -> (r: Option<String>)
        ensures
            r is Some <==> self@.contains_key(mime_type@),
            r is Some ==> r.unwrap()@ == self@[mime_type@],
    {
        let ghost s = pairs_view(self.content_by_mime_type@);
        let mut i: usize = self.content_by_mime_type.len();
        while i > 0
            invariant
                i <= self.content_by_mime_type@.len(),
                s == pairs_view(self.content_by_mime_type@),
                forall|j: int| i <= j < s.len() ==> s[j].0 != mime_type@,
            decreases i,
        {
            let entry = &self.content_by_mime_type[i - 1];
            if str_eq(entry.0.as_str(), mime_type) {
                proof {
                    lemma_pairs_map_tail(s, i as int, mime_type@);
                    assert(s.subrange(0, i as int).drop_last() =~= s.subrange(0, i - 1));
                }
                return Some(entry.1.clone());
            }
            i -= 1;
        }
        proof {
            lemma_pairs_map_tail(s, 0, mime_type@);
        }
        None
    }
}

/// Entries past `i` that do not have key `k` leave what the map holds at `k`
/// as the first `i` entries give it.
proof fn lemma_pairs_map_tail(s: Seq<(Seq<char>, Seq<char>)>, i: int, k: Seq<char>)
    requires
        0 <= i <= s.len(),
        forall|j: int| i <= j < s.len() ==> s[j].0 != k,
    ensures
        pairs_map(s).contains_key(k) == pairs_map(s.subrange(0, i)).contains_key(k),
        pairs_map(s).contains_key(k) ==> pairs_map(s)[k] == pairs_map(s.subrange(0, i))[k],
    decreases s.len(),
{
    if s.len() > i {
        lemma_pairs_map_tail(s.drop_last(), i, k);
        assert(s.drop_last().subrange(0, i) =~= s.subrange(0, i));
    } else {
        assert(s.subrange(0, i) =~= s);
    }
}

/// The MIME type of plain text.
pub open spec fn text_plain() -> Seq<char> {
    "text/plain"@
}

/// The MIME type of HTML.
pub open spec fn text_html() -> Seq<char> {
    "text/html"@
}

/// Outputs holding `text` and a line break as plain text.
pub fn text_output(text: String) -> (r: EvalOutputs)
    ensures
        r@ == map![text_plain() => text@.push('\n')],
        r.timing is None,
{
    let mut content = text;
    push_char(&mut content, '\n');
    let mut r = EvalOutputs::new();
    r.insert(String::from_str("text/plain"), content);
    proof {
        reveal_strlit("text/plain");
    }
    assert(r@ =~= map![text_plain() => text@.push('\n')]);
    r
}

/// `s` with `<` written as `&lt;` and `>` as `&gt;`.
pub open spec fn escaped(s: Seq<char>) -> Seq<char>
    decreases s.len(),
{
    if s.len() == 0 {
        Seq::empty()
    } else {
        escaped(s.drop_last()) + (if s.last() == '<' {
            "&lt;"@
        } else if s.last() == '>' {
            "&gt;"@
        } else {
            seq![s.last()]
        })
    }
}

/// Appends `input` to `out` with the HTML angle brackets escaped.
pub fn html_escape(input: &str, out: &mut String)
    ensures
        final(out)@ == old(out)@ + escaped(input@),
{
    let v = chars_of(input);
    let mut i: usize = 0;
    while i < v.len()
        invariant
            v@ == input@,
            i <= v@.len(),
            out@ == old(out)@ + escaped(input@.subrange(0, i as int)),
        decreases v@.len() - i,
    {
        let c = v[i];
        let ghost before = out@;
        if c == '<' {
            out.append("&lt;");
        } else if c == '>' {
            out.append("&gt;");
        } else {
            push_char(out, c);
        }
        proof {
            assert(input@.subrange(0, i + 1).drop_last() =~= input@.subrange(0, i as int));
            if c != '<' && c != '>' {
                assert(before.push(c) =~= before + seq![c]);
            }
            assert(out@ =~= old(out)@ + escaped(input@.subrange(0, i + 1)));
        }
        i += 1;
    }
    assert(input@.subrange(0, v@.len() as int) =~= input@);
}

} // verus!
