//! Command parsing of mention texts.
//!
//! Every leading mention (`@bot`, `@bot@host`, or one addressed to another
//! user in a reply chain) is skipped; the first ordinary token is the command
//! name (in lower case) and the remaining whitespace-separated tokens are its
//! arguments. Markup is not parsed.

use vstd::prelude::*;
use crate::text::{chars_of, is_space, is_space_char, string_of};

verus! {

/// The number of leading characters of `s` that are not whitespace: the
/// length of the token that `s` starts with.
pub open spec fn token_len(s: Seq<char>) -> nat
    decreases s.len(),
{
    if s.len() > 0 && !is_space(s[0]) {
        1 + token_len(s.drop_first())
    } else {
        0
    }
}

/// What is left of `s` once leading whitespace and every leading mention
/// (an `@` and the token that follows it) are skipped.
pub open spec fn skip_mentions(s: Seq<char>) -> Seq<char>
    decreases s.len(),
    via skip_mentions_decreases
{
    if s.len() == 0 {
        s
    } else if is_space(s[0]) {
        skip_mentions(s.drop_first())
    } else if s[0] == '@' {
        let after = s.drop_first();
        skip_mentions(after.skip(token_len(after) as int))
    } else {
        s
    }
}

/// The maximal runs of non-whitespace characters of `s`, in order.
pub open spec fn words(s: Seq<char>) -> Seq<Seq<char>>
    decreases s.len(),
    via words_decreases
{
    if s.len() == 0 {
        Seq::empty()
    } else if is_space(s[0]) {
        words(s.drop_first())
    } else {
        let k = token_len(s);
        seq![s.take(k as int)] + words(s.skip(k as int))
    }
}

/// The command name (before lower-casing) and the arguments of `text`.
pub open spec fn command_words_of(text: Seq<char>) -> Seq<Seq<char>> {
    words(skip_mentions(text))
}

/// A token is no longer than the text, and is not empty where the text
/// starts with a character that is no whitespace.
pub proof fn lemma_token_len_bound(s: Seq<char>)
    ensures
        token_len(s) <= s.len(),
        s.len() > 0 && !is_space(s[0]) ==> token_len(s) >= 1,
    decreases s.len(),
{
    if s.len() > 0 && !is_space(s[0]) {
        lemma_token_len_bound(s.drop_first());
    }
}

/// Every character of the token that `s` starts with is no whitespace.
pub proof fn lemma_token_chars(s: Seq<char>)
    ensures
        forall|j: int| 0 <= j < token_len(s) ==> !is_space(#[trigger] s[j]),
    decreases s.len(),
{
    if s.len() > 0 && !is_space(s[0]) {
        lemma_token_chars(s.drop_first());
        lemma_token_len_bound(s.drop_first());
        assert forall|j: int| 0 <= j < token_len(s) implies !is_space(#[trigger] s[j]) by {
            if j > 0 {
                assert(s[j] == s.drop_first()[j - 1]);
            }
        }
    }
}

/// A token ends at the first whitespace character.
pub proof fn lemma_token_len_of_concat(m: Seq<char>, r: Seq<char>)
    requires
        forall|i: int| 0 <= i < m.len() ==> !is_space(#[trigger] m[i]),
        r.len() > 0,
        is_space(r[0]),
    ensures
        token_len(m + r) == m.len(),
    decreases m.len(),
{
    if m.len() > 0 {
        assert((m + r).drop_first() =~= m.drop_first() + r);
        assert forall|i: int| 0 <= i < m.drop_first().len() implies !is_space(
            #[trigger] m.drop_first()[i],
        ) by {
            assert(m.drop_first()[i] == m[i + 1]);
        }
        lemma_token_len_of_concat(m.drop_first(), r);
    } else {
        assert(m + r =~= r);
    }
}

/// A token that ends before the end of `a`, or ends with `a` where
/// whitespace follows, is the same in `a` and in `a + r`.
pub proof fn lemma_token_len_of_prefix(a: Seq<char>, r: Seq<char>)
    requires
        token_len(a) < a.len() || (r.len() > 0 && is_space(r[0])),
    ensures
        token_len(a + r) == token_len(a),
    decreases a.len(),
{
    lemma_token_len_bound(a);
    if a.len() == 0 {
        assert(a + r =~= r);
    } else {
        assert((a + r)[0] == a[0]);
        if !is_space(a[0]) {
            assert((a + r).drop_first() =~= a.drop_first() + r);
            lemma_token_len_of_prefix(a.drop_first(), r);
        }
    }
}

#[via_fn]
proof fn skip_mentions_decreases(s: Seq<char>) {
    if s.len() > 0 && !is_space(s[0]) && s[0] == '@' {
        lemma_token_len_bound(s.drop_first());
    }
}

#[via_fn]
proof fn words_decreases(s: Seq<char>) {
    if s.len() > 0 && !is_space(s[0]) {
        lemma_token_len_bound(s);
    }
}

/// A leading mention changes nothing: the command words of `@m t` are those
/// of `t`, where `m` is a token and a whitespace character follows it.
pub proof fn lemma_leading_mention_is_skipped(m: Seq<char>, space: char, t: Seq<char>)
    requires
        forall|i: int| 0 <= i < m.len() ==> !is_space(#[trigger] m[i]),
        is_space(space),
    ensures
        command_words_of(seq!['@'] + m + seq![space] + t) == command_words_of(t),
{
    let s = seq!['@'] + m + seq![space] + t;
    let after = s.drop_first();
    assert(after =~= m + (seq![space] + t));
    lemma_token_len_of_concat(m, seq![space] + t);
    assert(after.skip(m.len() as int) =~= seq![space] + t);
    assert((seq![space] + t).drop_first() =~= t);
    assert(skip_mentions(seq![space] + t) == skip_mentions(t));
}

/// A text of whitespace only holds no command.
pub proof fn lemma_blank_text_has_no_command(s: Seq<char>)
    requires
        forall|i: int| 0 <= i < s.len() ==> is_space(#[trigger] s[i]),
    ensures
        command_words_of(s).len() == 0,
    decreases s.len(),
{
    if s.len() > 0 {
        assert forall|i: int| 0 <= i < s.drop_first().len() implies is_space(
            #[trigger] s.drop_first()[i],
        ) by {
            assert(s.drop_first()[i] == s[i + 1]);
        }
        lemma_blank_text_has_no_command(s.drop_first());
    }
}

/// Tokens are whitespace-separated: splitting a text at a whitespace
/// character splits its words there.
pub proof fn lemma_words_split_at_space(a: Seq<char>, space: char, b: Seq<char>)
    requires
        is_space(space),
    ensures
        words(a + seq![space] + b) == words(a) + words(b),
    decreases a.len(),
{
    let s = a + seq![space] + b;
    if a.len() == 0 {
        assert(s.drop_first() =~= b);
        assert(words(a) + words(b) =~= words(b));
    } else {
        assert(s[0] == a[0]);
        if is_space(a[0]) {
            assert(s.drop_first() =~= a.drop_first() + seq![space] + b);
            lemma_words_split_at_space(a.drop_first(), space, b);
        } else {
            let ka = token_len(a);
            lemma_token_len_bound(a);
            assert(s =~= a + (seq![space] + b));
            lemma_token_len_of_prefix(a, seq![space] + b);
            assert(s.take(ka as int) =~= a.take(ka as int));
            assert(s.skip(ka as int) =~= a.skip(ka as int) + seq![space] + b);
            lemma_words_split_at_space(a.skip(ka as int), space, b);
            assert(seq![a.take(ka as int)] + (words(a.skip(ka as int)) + words(b)) =~= (seq![
                a.take(ka as int),
            ] + words(a.skip(ka as int))) + words(b));
        }
    }
}

/// The number of leading words that are mentions (start with `@`).
pub open spec fn leading_mentions(words: Seq<Seq<char>>) -> nat
    decreases words.len(),
{
    if words.len() > 0 && words[0].len() > 0 && words[0][0] == '@' {
        1 + leading_mentions(words.drop_first())
    } else {
        0
    }
}

/// There are no more leading mentions than words.
pub proof fn lemma_leading_mentions_bound(ws: Seq<Seq<char>>)
    ensures
        leading_mentions(ws) <= ws.len(),
    decreases ws.len(),
{
    if ws.len() > 0 {
        lemma_leading_mentions_bound(ws.drop_first());
    }
}

/// The words `ws`, joined by single spaces.
pub open spec fn join_words(ws: Seq<Seq<char>>) -> Seq<char>
    decreases ws.len(),
{
    if ws.len() == 0 {
        Seq::empty()
    } else if ws.len() == 1 {
        ws[0]
    } else {
        ws[0] + seq![' '] + join_words(ws.drop_first())
    }
}

/// The command words are the whitespace-separated tokens of the text after
/// its leading mentions: the words of the text, less every leading word
/// that starts with `@`.
pub proof fn lemma_command_words_skip_leading_mentions(s: Seq<char>)
    ensures
        command_words_of(s) == words(s).skip(leading_mentions(words(s)) as int),
    decreases s.len(),
{
    if s.len() == 0 {
        assert(words(s).skip(0) =~= words(s));
    } else if is_space(s[0]) {
        lemma_command_words_skip_leading_mentions(s.drop_first());
    } else {
        let k = token_len(s);
        lemma_token_len_bound(s);
        let rest = words(s.skip(k as int));
        assert(words(s) == seq![s.take(k as int)] + rest);
        assert(words(s)[0] == s.take(k as int));
        assert(words(s).drop_first() =~= rest);
        if s[0] == '@' {
            let after = s.drop_first();
            lemma_token_len_bound(after);
            assert(k == 1 + token_len(after));
            assert(after.skip(token_len(after) as int) =~= s.skip(k as int));
            lemma_command_words_skip_leading_mentions(s.skip(k as int));
            assert(words(s)[0][0] == '@');
            assert(leading_mentions(words(s)) == 1 + leading_mentions(rest));
            lemma_leading_mentions_bound(rest);
            assert(words(s).skip(leading_mentions(words(s)) as int) =~= rest.skip(
                leading_mentions(rest) as int,
            ));
        } else {
            assert(words(s).skip(0) =~= words(s));
        }
    }
}

/// The words of a token are that token alone.
proof fn lemma_words_of_token(w: Seq<char>)
    requires
        w.len() > 0,
        forall|j: int| 0 <= j < w.len() ==> !is_space(#[trigger] w[j]),
    ensures
        words(w) == seq![w],
{
    assert(!is_space(w[0]));
    lemma_token_len_of_prefix_full(w);
    assert(w.take(w.len() as int) =~= w);
    assert(w.skip(w.len() as int) =~= Seq::<char>::empty());
    assert(words(Seq::<char>::empty()) == Seq::<Seq<char>>::empty());
    assert(words(w) == seq![w.take(w.len() as int)] + words(w.skip(w.len() as int)));
    assert(seq![w] + Seq::<Seq<char>>::empty() =~= seq![w]);
}

/// A text of no whitespace is one token.
proof fn lemma_token_len_of_prefix_full(w: Seq<char>)
    requires
        forall|j: int| 0 <= j < w.len() ==> !is_space(#[trigger] w[j]),
    ensures
        token_len(w) == w.len(),
    decreases w.len(),
{
    if w.len() > 0 {
        assert forall|j: int| 0 <= j < w.drop_first().len() implies !is_space(
            #[trigger] w.drop_first()[j],
        ) by {
            assert(w.drop_first()[j] == w[j + 1]);
        }
        lemma_token_len_of_prefix_full(w.drop_first());
    }
}

/// Joining tokens by spaces and splitting the text at whitespace gives the
/// tokens back.
pub proof fn lemma_words_of_joined(ws: Seq<Seq<char>>)
    requires
        forall|i: int|
            #![trigger ws[i]]
            0 <= i < ws.len() ==> ws[i].len() > 0 && forall|j: int|
                0 <= j < ws[i].len() ==> !is_space(ws[i][j]),
    ensures
        words(join_words(ws)) == ws,
    decreases ws.len(),
{
    if ws.len() == 0 {
    } else if ws.len() == 1 {
        assert(ws[0].len() > 0);
        lemma_words_of_token(ws[0]);
        assert(seq![ws[0]] =~= ws);
    } else {
        assert(ws[0].len() > 0);
        lemma_words_of_token(ws[0]);
        let rest = ws.drop_first();
        assert forall|i: int|
            #![trigger rest[i]]
            0 <= i < rest.len() implies rest[i].len() > 0 && forall|j: int|
                0 <= j < rest[i].len() ==> !is_space(rest[i][j]) by {
            assert(rest[i] == ws[i + 1]);
        }
        lemma_words_of_joined(rest);
        lemma_words_split_at_space(ws[0], ' ', join_words(rest));
        assert(seq![ws[0]] + rest =~= ws);
    }
}

/// Whitespace between tokens does not matter: joining the words of a text
/// by single spaces leaves its command words as they were.
pub proof fn lemma_normalised_whitespace_keeps_the_command(s: Seq<char>)
    ensures
        command_words_of(join_words(words(s))) == command_words_of(s),
{
    lemma_words_are_tokens(s);
    lemma_words_of_joined(words(s));
    lemma_command_words_skip_leading_mentions(s);
    lemma_command_words_skip_leading_mentions(join_words(words(s)));
}

/// A command written after a mention parses back: for a mention token `m`,
/// a command name `name` that is a token not starting with `@`, and
/// argument tokens `args`, the command words of `@m name args...` are
/// `name` followed by `args`.
pub proof fn lemma_built_command_parses_back(
    m: Seq<char>,
    name: Seq<char>,
    args: Seq<Seq<char>>,
)
    requires
        forall|i: int| 0 <= i < m.len() ==> !is_space(#[trigger] m[i]),
        name.len() > 0,
        name[0] != '@',
        forall|j: int| 0 <= j < name.len() ==> !is_space(#[trigger] name[j]),
        forall|i: int|
            #![trigger args[i]]
            0 <= i < args.len() ==> args[i].len() > 0 && forall|j: int|
                0 <= j < args[i].len() ==> !is_space(args[i][j]),
    ensures
        command_words_of(seq!['@'] + m + seq![' '] + join_words(seq![name] + args)) == seq![name]
            + args,
{
    let ws = seq![name] + args;
    assert forall|i: int|
        #![trigger ws[i]]
        0 <= i < ws.len() implies ws[i].len() > 0 && forall|j: int|
            0 <= j < ws[i].len() ==> !is_space(ws[i][j]) by {
        if i > 0 {
            assert(ws[i] == args[i - 1]);
        }
    }
    lemma_words_of_joined(ws);
    lemma_leading_mention_is_skipped(m, ' ', join_words(ws));
    lemma_command_words_skip_leading_mentions(join_words(ws));
    assert(words(join_words(ws))[0] == name);
    assert(leading_mentions(words(join_words(ws))) == 0);
    assert(words(join_words(ws)).skip(0) =~= words(join_words(ws)));
}

/// Every word is a non-empty run of characters none of which is whitespace.
pub proof fn lemma_words_are_tokens(s: Seq<char>)
    ensures
        forall|i: int|
            #![trigger words(s)[i]]
            0 <= i < words(s).len() ==> {
                &&& words(s)[i].len() > 0
                &&& forall|j: int| 0 <= j < words(s)[i].len() ==> !is_space(words(s)[i][j])
            },
    decreases s.len(),
{
    if s.len() == 0 {
    } else if is_space(s[0]) {
        lemma_words_are_tokens(s.drop_first());
        assert(words(s) == words(s.drop_first()));
    } else {
        let k = token_len(s);
        lemma_token_len_bound(s);
        lemma_token_chars(s);
        lemma_words_are_tokens(s.skip(k as int));
        let rest = words(s.skip(k as int));
        assert(words(s) == seq![s.take(k as int)] + rest);
        assert forall|i: int|
            #![trigger words(s)[i]]
            0 <= i < words(s).len() implies {
            &&& words(s)[i].len() > 0
            &&& forall|j: int| 0 <= j < words(s)[i].len() ==> !is_space(words(s)[i][j])
        } by {
            if i == 0 {
                assert(words(s)[0] == s.take(k as int));
                assert forall|j: int| 0 <= j < words(s)[0].len() implies !is_space(
                    words(s)[0][j],
                ) by {
                    assert(words(s)[0][j] == s[j]);
                }
            } else {
                assert(words(s)[i] == rest[i - 1]);
            }
        }
    }
}

/// What `str::to_lowercase` returns for a string of these characters: its
/// Unicode lower-case mapping, where one character may map to several and a
/// capital sigma maps by its place in the word.
pub uninterp spec fn lowercase_of(s: Seq<char>) -> Seq<char>;

/// A character lower-cased as ASCII: `A` to `Z` become `a` to `z`, and
/// every other character stays.
pub open spec fn ascii_lower(c: char) -> char {
    if 0x41 <= (c as u32) <= 0x5A {
        ((c as u32) + 0x20) as char
    } else {
        c
    }
}

/// Text lower-cased as ASCII, character by character.
pub open spec fn ascii_lowercase(s: Seq<char>) -> Seq<char> {
    s.map_values(|c: char| ascii_lower(c))
}

/// Calls `str::to_lowercase`; its result is named `lowercase_of` of the
/// argument's characters. Of text that is all ASCII it claims what std
/// documents of the Unicode lower-case mapping there: `A` to `Z` map to
/// `a` to `z`, and every other ASCII character has no lower-case mapping
/// and stays; nothing more is claimed.
#[verifier::external_body]
fn to_lowercase(s: &str) -> (r: String)
    ensures
        r@ == lowercase_of(s@),
        vstd::utf8::is_ascii_chars(s@) ==> r@ == ascii_lowercase(s@),
{
    s.to_lowercase()
}

/// The index just past the token of `chars` that starts at `from`.
fn token_end(chars: &Vec<char>, from: usize) -> (end: usize)
    requires
        from <= chars.len(),
    ensures
        end == from + token_len(chars@.skip(from as int)),
        end <= chars.len(),
{
    let mut end = from;
    while end < chars.len() && !is_space_char(chars[end])
        invariant
            from <= end <= chars.len(),
            token_len(chars@.skip(from as int)) == (end - from) + token_len(
                chars@.skip(end as int),
            ),
        decreases chars.len() - end,
    {
        assert(chars@.skip(end as int).drop_first() =~= chars@.skip(end + 1));
        end += 1;
    }
    end
}

/// The command name (before lower-casing) followed by the arguments of
/// `text`: its whitespace-separated tokens after the leading mentions.
pub fn command_words(text: &str) -> (w: Vec<String>)
    ensures
        w.deep_view() == command_words_of(text@),
{
    let chars = chars_of(text);
    let n = chars.len();
    let mut pos: usize = 0;
    assert(chars@.skip(0) =~= chars@);
    loop
        invariant
            n == chars.len(),
            chars@ == text@,
            pos <= n,
            skip_mentions(chars@.skip(pos as int)) == skip_mentions(text@),
        ensures
            pos <= n,
            chars@.skip(pos as int) == skip_mentions(text@),
        decreases n - pos,
    {
        if pos == n {
            assert(chars@.skip(pos as int) =~= Seq::<char>::empty());
            break;
        }
        let c = chars[pos];
        assert(chars@.skip(pos as int).drop_first() =~= chars@.skip(pos + 1));
        if is_space_char(c) {
            pos += 1;
        } else if c == '@' {
            let end = token_end(&chars, pos + 1);
            assert(chars@.skip(pos + 1).skip(token_len(chars@.skip(pos + 1)) as int)
                =~= chars@.skip(end as int));
            pos = end;
        } else {
            break;
        }
    }
    let mut out: Vec<String> = Vec::new();
    loop
        invariant
            n == chars.len(),
            pos <= n,
            out.deep_view() + words(chars@.skip(pos as int)) == command_words_of(text@),
        ensures
            out.deep_view() == command_words_of(text@),
        decreases n - pos,
    {
        if pos == n {
            assert(chars@.skip(pos as int) =~= Seq::<char>::empty());
            assert(out.deep_view() + Seq::<Seq<char>>::empty() =~= out.deep_view());
            break;
        }
        assert(chars@.skip(pos as int).drop_first() =~= chars@.skip(pos + 1));
        if is_space_char(chars[pos]) {
            pos += 1;
        } else {
            let end = token_end(&chars, pos);
            let word = string_of(&chars, pos, end);
            proof {
                let rest = chars@.skip(pos as int);
                let k = token_len(rest);
                assert(rest.take(k as int) =~= chars@.subrange(pos as int, end as int));
                assert(rest.skip(k as int) =~= chars@.skip(end as int));
            }
            let ghost before = out.deep_view();
            out.push(word);
            assert(out.deep_view() =~= before.push(word@));
            assert(before.push(word@) + words(chars@.skip(end as int)) =~= before + (seq![word@]
                + words(chars@.skip(end as int))));
            pos = end;
        }
    }
    out
}

/// Parses the command of a mention text: `Some((name, args))`, where
/// `name` is the first token after the leading mentions, in lower case, and
/// `args` are the tokens after it; `None` when the text holds nothing but
/// mentions and whitespace.
pub fn parse_command(text: &str) -> (r: Option<(String, Vec<String>)>)
    ensures
        match r {
            None => command_words_of(text@).len() == 0,
            Some((name, args)) => {
                &&& command_words_of(text@).len() > 0
                &&& name@ == lowercase_of(command_words_of(text@)[0])
                &&& vstd::utf8::is_ascii_chars(command_words_of(text@)[0]) ==> name@.len()
                    == command_words_of(text@)[0].len() && forall|i: int|
                    0 <= i < name@.len() ==> #[trigger] name@[i] == ascii_lower(
                        command_words_of(text@)[0][i],
                    )
                &&& args.deep_view() == command_words_of(text@).drop_first()
            },
        },
{
    let mut words = command_words(text);
    if words.len() == 0 {
        return None;
    }
    let ghost all = words.deep_view();
    let first = words.remove(0);
    assert(words.deep_view() =~= all.drop_first());
    let name = to_lowercase(first.as_str());
    Some((name, words))
}

} // verus!
