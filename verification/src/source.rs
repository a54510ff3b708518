//! The URL source: turns one blob of comma-separated text into URL tokens.

use vstd::prelude::*;

verus! {

/// Whether `c` has the Unicode `White_Space` property.
pub open spec fn is_whitespace(c: char) -> bool {
    let n = c as u32;
    ||| 0x09 <= n <= 0x0D
    ||| n == 0x20
    ||| n == 0x85
    ||| n == 0xA0
    ||| n == 0x1680
    ||| 0x2000 <= n <= 0x200A
    ||| n == 0x2028
    ||| n == 0x2029
    ||| n == 0x202F
    ||| n == 0x205F
    ||| n == 0x3000
}

/// `s` without its leading whitespace.
pub open spec fn trim_start(s: Seq<char>) -> Seq<char>
    decreases s.len(),
{
    if s.len() > 0 && is_whitespace(s[0]) {
        trim_start(s.skip(1))
    } else {
        s
    }
}

/// `s` without its trailing whitespace.
pub open spec fn trim_end(s: Seq<char>) -> Seq<char>
    decreases s.len(),
{
    if s.len() > 0 && is_whitespace(s.last()) {
        trim_end(s.drop_last())
    } else {
        s
    }
}

/// `s` without its leading and trailing whitespace.
pub open spec fn trim(s: Seq<char>) -> Seq<char> {
    trim_end(trim_start(s))
}

/// `s` with every line feed taken out and every other character kept in place.
pub open spec fn without_newlines(s: Seq<char>) -> Seq<char> {
    s.filter(|c: char| c != '\n')
}

/// The URL token that a raw field stands for: the field trimmed, then freed of
/// line feeds inside it.
pub open spec fn clean(field: Seq<char>) -> Seq<char> {
    without_newlines(trim(field))
}

/// `std`'s `str::trim`: the slice returned is the argument without its leading
/// and trailing characters of the Unicode `White_Space` property.
pub assume_specification[ str::trim ](s: &str) -> (r: &str)
    ensures
        r@ == trim(s@),
;

/// Trimming cuts a text down to the stretch from `cut.0` to `cut.1`: what
/// stands before and behind it is whitespace, and the stretch itself, unless
/// it is empty, neither begins nor ends with whitespace.
pub proof fn law_trim_keeps_the_core(s: Seq<char>) -> (cut: (int, int))
    ensures
        0 <= cut.0 <= cut.1 <= s.len(),
        trim(s) == s.subrange(cut.0, cut.1),
        forall|i: int| 0 <= i < cut.0 ==> is_whitespace(s[i]),
        forall|i: int| cut.1 <= i < s.len() ==> is_whitespace(s[i]),
        cut.0 < cut.1 ==> !is_whitespace(s[cut.0]) && !is_whitespace(s[cut.1 - 1]),
{
    let a = lemma_trim_start(s);
    let rest = s.skip(a);
    let b = lemma_trim_end(rest);
    assert(rest.take(b) == s.subrange(a, a + b));
    assert forall|i: int| a + b <= i < s.len() implies is_whitespace(s[i]) by {
        assert(s[i] == rest[i - a]);
    }
    (a, a + b)
}

proof fn lemma_trim_start(s: Seq<char>) -> (a: int)
    ensures
        0 <= a <= s.len(),
        trim_start(s) == s.skip(a),
        forall|i: int| 0 <= i < a ==> is_whitespace(s[i]),
        a < s.len() ==> !is_whitespace(s[a]),
    decreases s.len(),
{
    if s.len() > 0 && is_whitespace(s[0]) {
        let inner = lemma_trim_start(s.skip(1));
        assert(s.skip(1).skip(inner) == s.skip(inner + 1));
        assert forall|i: int| 0 <= i < inner + 1 implies is_whitespace(s[i]) by {
            if i > 0 {
                assert(s[i] == s.skip(1)[i - 1]);
            }
        }
        inner + 1
    } else {
        assert(s.skip(0) == s);
        0
    }
}

proof fn lemma_trim_end(s: Seq<char>) -> (b: int)
    ensures
        0 <= b <= s.len(),
        trim_end(s) == s.take(b),
        forall|i: int| b <= i < s.len() ==> is_whitespace(s[i]),
        b > 0 ==> !is_whitespace(s[b - 1]),
    decreases s.len(),
{
    if s.len() > 0 && is_whitespace(s.last()) {
        let inner = lemma_trim_end(s.drop_last());
        assert(s.drop_last().take(inner) == s.take(inner));
        assert forall|i: int| inner <= i < s.len() implies is_whitespace(s[i]) by {
            if i < s.len() - 1 {
                assert(s[i] == s.drop_last()[i]);
            }
        }
        inner
    } else {
        assert(s.take(s.len() as int) == s);
        s.len() as int
    }
}

proof fn lemma_without_newlines_push(s: Seq<char>, c: char)
    ensures
        without_newlines(s.push(c)) == if c != '\n' {
            without_newlines(s).push(c)
        } else {
            without_newlines(s)
        },
{
    reveal(Seq::filter);
    assert(s.push(c).drop_last() == s);
}

/// Copies `s` without its line feeds.
pub fn strip_newlines(s: &str) -> (r: String)
    ensures
        r@ == without_newlines(s@),
{
    let mut out = String::new();
    for c in it: s.chars()
        invariant
            it.seq() == s@,
            out@ == without_newlines(s@.take(it.index())),
    {
        proof {
            let k = it.index();
            assert(s@.take(k + 1) == s@.take(k).push(c));
            lemma_without_newlines_push(s@.take(k), c);
        }
        if c != '\n' {
            out.push(c);
        }
    }
    proof {
        assert(s@.take(s@.len() as int) == s@);
    }
    out
}

/// The index of the first comma of `s`, or `s.len()` where `s` has none.
pub open spec fn first_comma(s: Seq<char>) -> int
    decreases s.len(),
{
    if s.len() == 0 || s[0] == ',' {
        0
    } else {
        1 + first_comma(s.skip(1))
    }
}

/// The raw fields of `s`: the stretches of text between its commas, in the
/// order of the text. A text without a comma, the empty text too, is one field.
pub open spec fn fields(s: Seq<char>) -> Seq<Seq<char>>
    decreases s.len(),
{
    let i = first_comma(s);
    if 0 <= i < s.len() {
        seq![s.take(i)] + fields(s.skip(i + 1))
    } else {
        seq![s]
    }
}

/// The URL tokens of `s`: each raw field cleaned, none left out.
pub open spec fn tokens(s: Seq<char>) -> Seq<Seq<char>> {
    Seq::new(fields(s).len(), |i: int| clean(fields(s)[i]))
}

/// `first_comma` finds a comma at `n` when none stands before it.
pub proof fn lemma_first_comma_at(s: Seq<char>, n: int)
    requires
        0 <= n < s.len(),
        s[n] == ',',
        forall|j: int| 0 <= j < n ==> s[j] != ',',
    ensures
        first_comma(s) == n,
    decreases n,
{
    if n > 0 {
        lemma_first_comma_at(s.skip(1), n - 1);
    }
}

/// `first_comma` runs to the end of a text without commas.
pub proof fn lemma_first_comma_none(s: Seq<char>)
    requires
        forall|j: int| 0 <= j < s.len() ==> s[j] != ',',
    ensures
        first_comma(s) == s.len(),
    decreases s.len(),
{
    if s.len() > 0 {
        lemma_first_comma_none(s.skip(1));
    }
}

/// `parts` written one after the other with a comma between each two.
pub open spec fn joined(parts: Seq<Seq<char>>) -> Seq<char>
    decreases parts.len(),
{
    if parts.len() == 0 {
        Seq::empty()
    } else if parts.len() == 1 {
        parts[0]
    } else {
        parts[0] + seq![','] + joined(parts.skip(1))
    }
}

/// Splitting loses nothing and splits at every comma: there is at least one
/// field, no field holds a comma, and the fields joined by commas are the
/// text again.
pub proof fn law_fields_rejoin(s: Seq<char>)
    ensures
        fields(s).len() >= 1,
        forall|i: int, j: int|
            0 <= i < fields(s).len() && 0 <= j < fields(s)[i].len() ==> fields(s)[i][j] != ',',
        joined(fields(s)) == s,
    decreases s.len(),
{
    let n = first_comma(s);
    lemma_first_comma_is_first(s);
    if 0 <= n < s.len() {
        let rest = s.skip(n + 1);
        law_fields_rejoin(rest);
        let all = fields(s);
        assert(all.skip(1) == fields(rest));
        assert(all[0] == s.take(n));
        assert(s.take(n) + seq![','] + rest == s);
        assert forall|i: int, j: int| 0 <= i < all.len() && 0 <= j < all[i].len() implies all[i][j]
            != ',' by {
            if i > 0 {
                assert(all[i] == fields(rest)[i - 1]);
            }
        }
    }
}

/// No comma stands before `first_comma`, and one stands at it where it lies
/// inside the text.
pub proof fn lemma_first_comma_is_first(s: Seq<char>)
    ensures
        0 <= first_comma(s) <= s.len(),
        forall|j: int| 0 <= j < first_comma(s) ==> s[j] != ',',
        first_comma(s) < s.len() ==> s[first_comma(s)] == ',',
    decreases s.len(),
{
    if s.len() > 0 && s[0] != ',' {
        lemma_first_comma_is_first(s.skip(1));
        assert forall|j: int| 0 <= j < first_comma(s) implies s[j] != ',' by {
            if j > 0 {
                assert(s[j] == s.skip(1)[j - 1]);
            }
        }
    }
}

/// Cleans one raw field: trims it, then drops the line feeds left inside.
pub fn clean_field(raw: &str) -> (token: String)
    ensures
        token@ == clean(raw@),
{
    strip_newlines(raw.trim())
}

/// Splits `data` at its commas and cleans every field. Fields that come out
/// empty are kept, so there are as many tokens as fields.
pub fn url_tokens(data: &str) -> (out: Vec<String>)
    ensures
        out.deep_view() == tokens(data@),
{
    let mut out: Vec<String> = Vec::new();
    let mut cur = String::new();
    let ghost mut start: int = 0;
    let ghost mut raw: Seq<Seq<char>> = Seq::empty();
    proof {
        assert(data@.skip(0) == data@);
        assert(raw + fields(data@) == fields(data@));
    }
    for c in it: data.chars()
        invariant
            it.seq() == data@,
            0 <= start <= it.index(),
            cur@ == data@.subrange(start, it.index()),
            forall|j: int| start <= j < it.index() ==> data@[j] != ',',
            fields(data@) == raw + fields(data@.skip(start)),
            out.len() == raw.len(),
            forall|i: int| 0 <= i < raw.len() ==> out[i]@ == clean(#[trigger] raw[i]),
    {
        let ghost k = it.index();
        if c == ',' {
            let token = clean_field(cur.as_str());
            proof {
                let rest = data@.skip(start);
                lemma_first_comma_at(rest, k - start);
                assert(rest.take(k - start) == cur@);
                assert(rest.skip(k - start + 1) == data@.skip(k + 1));
                assert(raw + (seq![cur@] + fields(data@.skip(k + 1))) == raw.push(cur@) + fields(
                    data@.skip(k + 1),
                ));
                raw = raw.push(cur@);
                start = k + 1;
            }
            out.push(token);
            cur = String::new();
        } else {
            cur.push(c);
        }
    }
    let token = clean_field(cur.as_str());
    proof {
        let rest = data@.skip(start);
        lemma_first_comma_none(rest);
        assert(rest == cur@);
        raw = raw.push(cur@);
    }
    out.push(token);
    proof {
        assert(raw == fields(data@));
        assert(out.deep_view() =~= tokens(data@));
    }
    out
}

} // verus!
