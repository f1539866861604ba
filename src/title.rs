//! Window titles made from the first words of an item's text.
use vstd::prelude::*;
use vstd::string::StrSliceExecFns;

verus! {

/// Unicode's White_Space characters.
pub open spec fn is_white(c: char) -> bool {
    let u = c as u32;
    (0x9 <= u <= 0xd) || u == 0x20 || u == 0x85 || u == 0xa0 || u == 0x1680 || (0x2000 <= u
        <= 0x200a) || u == 0x2028 || u == 0x2029 || u == 0x202f || u == 0x205f || u == 0x3000
}

/// Whether `c` separates words.
pub fn is_white_char(c: char) -> (r: bool)
    ensures
        r == is_white(c),
{
    let u = c as u32;
    (0x9 <= u && u <= 0xd) || u == 0x20 || u == 0x85 || u == 0xa0 || u == 0x1680 || (0x2000 <= u
        && u <= 0x200a) || u == 0x2028 || u == 0x2029 || u == 0x202f || u == 0x205f || u == 0x3000
}

/// The words of `s`: its maximal runs of characters that are not white space.
pub open spec fn words(s: Seq<char>) -> Seq<Seq<char>>
    decreases s.len(),
{
    if s.len() == 0 {
        seq![]
    } else {
        let p = s.drop_last();
        let c = s.last();
        let w = words(p);
        if is_white(c) {
            w
        } else if p.len() > 0 && !is_white(p.last()) {
            w.update(w.len() - 1, w.last().push(c))
        } else {
            w.push(seq![c])
        }
    }
}

/// The words joined with single spaces.
pub open spec fn join(ws: Seq<Seq<char>>) -> Seq<char>
    decreases ws.len(),
{
    if ws.len() == 0 {
        seq![]
    } else if ws.len() == 1 {
        ws[0]
    } else {
        join(ws.drop_last()) + seq![' '] + ws.last()
    }
}

/// The title for a text: its first four words joined with single spaces,
/// or a single space when it has no word.
pub open spec fn title_of(s: Seq<char>) -> Seq<char> {
    let ws = words(s);
    if ws.len() == 0 {
        seq![' ']
    } else if ws.len() <= 4 {
        join(ws)
    } else {
        join(ws.take(4))
    }
}

proof fn lemma_words_nonempty(s: Seq<char>)
    requires
        s.len() > 0,
        !is_white(s.last()),
    ensures
        words(s).len() > 0,
    decreases s.len(),
{
    let p = s.drop_last();
    if p.len() > 0 && !is_white(p.last()) {
        lemma_words_nonempty(p);
    }
}

proof fn lemma_join_extend(ws: Seq<Seq<char>>, c: char)
    requires
        ws.len() > 0,
    ensures
        join(ws.update(ws.len() - 1, ws.last().push(c))) == join(ws).push(c),
{
    let ws2 = ws.update(ws.len() - 1, ws.last().push(c));
    if ws.len() > 1 {
        assert(ws2.drop_last() =~= ws.drop_last());
        assert(join(ws2) =~= join(ws).push(c));
    }
}

/// Relies on std's `String::push`, which appends one character.
#[verifier::external_body]
fn push_char(s: &mut String, c: char)
    ensures
        final(s)@ == old(s)@.push(c),
{
    s.push(c);
}

/// The title shown for an item with text `text`.
pub fn generate_title(text: &str) -> (r: String)
    ensures
        r@ == title_of(text@),
{
    let n = text.unicode_len();
    let mut out = String::new();
    let mut count: usize = 0;
    let mut in_word = false;
    let mut i: usize = 0;
    while i < n
        invariant
            n == text@.len(),
            i <= n,
            count <= i,
            count == words(text@.take(i as int)).len(),
            in_word == (i > 0 && !is_white(text@[i - 1])),
            count <= 4 ==> out@ == join(words(text@.take(i as int))),
            count > 4 ==> out@ == join(words(text@.take(i as int)).take(4)),
        decreases n - i,
    {
        let c = text.get_char(i);
        let ghost p = text@.take(i as int);
        let ghost w = words(p);
        proof {
            assert(text@.take(i + 1).drop_last() =~= p);
            assert(text@.take(i + 1).last() == c);
            if i > 0 {
                assert(p.last() == text@[i - 1]);
            }
        }
        if is_white_char(c) {
            in_word = false;
        } else if in_word {
            proof {
                lemma_words_nonempty(p);
                let w2 = w.update(w.len() - 1, w.last().push(c));
                assert(words(text@.take(i + 1)) == w2);
                if count <= 4 {
                    lemma_join_extend(w, c);
                } else {
                    assert(w2.take(4) =~= w.take(4));
                }
            }
            if count <= 4 {
                push_char(&mut out, c);
            }
        } else {
            proof {
                let w2 = w.push(seq![c]);
                assert(words(text@.take(i + 1)) == w2);
                assert(w2.drop_last() =~= w);
                if count >= 4 {
                    assert(w2.take(4) =~= w.take(4));
                    if count == 4 {
                        assert(w.take(4) =~= w);
                    }
                }
            }
            count = count + 1;
            if count <= 4 {
                if count > 1 {
                    push_char(&mut out, ' ');
                }
                push_char(&mut out, c);
            }
            in_word = true;
        }
        i = i + 1;
    }
    proof {
        assert(text@.take(n as int) =~= text@);
    }
    if count == 0 {
        proof {
            reveal_strlit(" ");
            assert(" "@ =~= seq![' ']);
        }
        " ".to_owned()
    } else {
        out
    }
}

} // verus!
