//! Conversion between Rust strings and the null-terminated wide-character
//! buffers of the analysis engine's ABI, and back.
//!
//! A buffer holds fixed-width elements: on a platform whose wide character
//! is two bytes wide the text is carried as UTF-16 code units, on a
//! four-byte platform each element is one Unicode scalar value.  Either
//! way the buffer ends in a single zero element, so a string holding an
//! embedded null character cannot be represented and is rejected at
//! construction.

use vstd::prelude::*;

verus! {

/// Element width of the ABI's wide-character type.
#[derive(Debug, Clone, Copy, PartialEq, Eq, Structural)]
pub enum WideWidth {
    /// Two-byte elements: text is carried as UTF-16 code units.
    Two,
    /// Four-byte elements: each element is one Unicode scalar value.
    Four,
}

pub open spec fn is_high_surrogate(u: u32) -> bool {
    0xD800 <= u <= 0xDBFF
}

pub open spec fn is_low_surrogate(u: u32) -> bool {
    0xDC00 <= u <= 0xDFFF
}

/// The UTF-16 code units of one character, widened to buffer elements.
pub open spec fn utf16_units_of_char(c: char) -> Seq<u32> {
    let v = c as u32;
    if v < 0x10000 {
        seq![v]
    } else {
        seq![
            (0xD800 + (v - 0x10000) / 0x400) as u32,
            (0xDC00 + (v - 0x10000) % 0x400) as u32,
        ]
    }
}

/// The buffer elements of one character in the given width regime.
pub open spec fn wide_units_of_char(c: char, width: WideWidth) -> Seq<u32> {
    match width {
        WideWidth::Two => utf16_units_of_char(c),
        WideWidth::Four => seq![c as u32],
    }
}

/// The buffer elements of a whole string, terminator excluded.
pub open spec fn wide_units(s: Seq<char>, width: WideWidth) -> Seq<u32>
    decreases s.len(),
{
    if s.len() == 0 {
        seq![]
    } else {
        wide_units_of_char(s[0], width) + wide_units(s.drop_first(), width)
    }
}

/// An owned, null-terminated wide-character buffer: `n_chars` elements of
/// transcoded text followed by exactly one zero element.
pub struct CWcharString {
    pub data: Vec<u32>,
    pub n_chars: usize,
    pub width: WideWidth,
}

impl CWcharString {
    /// The buffer's shape invariant: the terminator is its last element.
    pub open spec fn wf(self) -> bool {
        &&& self.data@.len() == self.n_chars + 1
        &&& self.data@[self.n_chars as int] == 0
    }

    /// The buffer carries exactly the encoding of `s` plus the terminator.
    pub open spec fn represents(self, s: Seq<char>) -> bool {
        self.data@ == wide_units(s, self.width).push(0u32)
    }

    /// Transcodes `string` into a terminated wide buffer of the given
    /// element width.  Fails exactly when the input holds an embedded
    /// null character, which a null-terminated buffer cannot carry.
    pub fn from_str(string: &str, width: WideWidth) -> (r: Result<CWcharString, ()>)
        ensures
            r is Ok <==> !string@.contains('\0'),
            r is Ok ==> {
                let w = r.unwrap();
                &&& w.width == width
                &&& w.wf()
                &&& w.represents(string@)
                &&& w.n_chars == wide_units(string@, width).len()
            },
    {
        let len = string.unicode_len();
        let mut data: Vec<u32> = Vec::new();
        let mut i: usize = 0;
        while i < len
            invariant
                i <= len,
                len == string@.len(),
                forall|j: int| 0 <= j < i ==> string@[j] != '\0',
                data@ == wide_units(string@.take(i as int), width),
            decreases len - i,
        {
            let c = string.get_char(i);
            if c == '\0' {
                proof {
                    assert(string@.contains('\0'));
                }
                return Err(());
            }
            let v = c as u32;
            match width {
                WideWidth::Two => {
                    if v < 0x10000 {
                        data.push(v);
                    } else {
                        data.push(0xD800 + (v - 0x10000) / 0x400);
                        data.push(0xDC00 + (v - 0x10000) % 0x400);
                    }
                },
                WideWidth::Four => {
                    data.push(v);
                },
            }
            proof {
                lemma_wide_units_push(string@.take(i as int), c, width);
                assert(string@.take(i + 1 as int) =~= string@.take(i as int).push(c));
            }
            i = i + 1;
        }
        proof {
            assert(string@.take(len as int) =~= string@);
            if string@.contains('\0') {
                let k = choose|k: int| 0 <= k < string@.len() && string@[k] == '\0';
                assert(string@[k] != '\0');
            }
        }
        let n_chars = data.len();
        data.push(0);
        Ok(CWcharString { data, n_chars, width })
    }

    /// Reads a terminated wide buffer back into text, walking element by
    /// element up to the first zero.  A missing buffer, standing for a
    /// null pointer at the ABI, is always an error; so is any element
    /// sequence that no string encodes to (a lone surrogate in the
    /// two-byte regime, a non-scalar value in the four-byte regime).
    pub fn from_raw_to_string(raw: Option<&Vec<u32>>, width: WideWidth) -> (r: Result<
        String,
        (),
    >)
        requires
            raw is Some ==> raw.unwrap()@.contains(0u32),
        ensures
            raw is None ==> r is Err,
            raw is Some ==> forall|n: int|
                #[trigger] is_terminator_index(raw.unwrap()@, n) ==> match r {
                    Ok(t) => wide_units(t@, width) == raw.unwrap()@.take(n),
                    Err(_) => forall|s: Seq<char>|
                        wide_units(s, width) != raw.unwrap()@.take(n),
                },
    {
        let v = match raw {
            Some(v) => v,
            None => {
                return Err(());
            },
        };
        let len = v.len();
        let mut n: usize = 0;
        loop
            invariant
                n <= len,
                len == v@.len(),
                v@.contains(0u32),
                forall|j: int| 0 <= j < n ==> v@[j] != 0,
            ensures
                n <= len,
                is_terminator_index(v@, n as int),
            decreases len - n,
        {
            proof {
                let k = choose|k: int| 0 <= k < v@.len() && v@[k] == 0u32;
                assert(n <= k);
            }
            if v[n] == 0 {
                break ;
            }
            n = n + 1;
        }
        proof {
            assert forall|n2: int| #[trigger] is_terminator_index(v@, n2) implies n2
                == n as int by {
                lemma_terminator_unique(v@, n2, n as int);
            }
        }
        let ghost units = v@.take(n as int);
        let mut out = String::new();
        let mut i: usize = 0;
        while i < n
            invariant
                raw == Some(v),
                i <= n,
                n <= len,
                len == v@.len(),
                is_terminator_index(v@, n as int),
                forall|n2: int| #[trigger] is_terminator_index(v@, n2) ==> n2 == n as int,
                units == v@.take(n as int),
                wide_units(out@, width) == v@.take(i as int),
            decreases n - i,
        {
            let u = v[i];
            proof {
                assert(units[i as int] == v@[i as int]);
                assert(v@.take(i as int) =~= units.take(i as int));
            }
            match width {
                WideWidth::Two => {
                    if u >= 0x10000 || (0xDC00 <= u && u <= 0xDFFF) {
                        proof {
                            lemma_undecodable_extension(out@, units, i as int, width);
                        }
                        return Err(());
                    } else if 0xD800 <= u && u <= 0xDBFF {
                        if i + 1 >= n {
                            proof {
                                lemma_undecodable_extension(out@, units, i as int, width);
                            }
                            return Err(());
                        }
                        let lo = v[i + 1];
                        proof {
                            assert(units[i + 1] == v@[i + 1]);
                        }
                        if !(0xDC00 <= lo && lo <= 0xDFFF) {
                            proof {
                                lemma_undecodable_extension(out@, units, i as int, width);
                            }
                            return Err(());
                        }
                        let scalar = 0x10000 + (u - 0xD800) * 0x400 + (lo - 0xDC00);
                        let c = match char_from_u32(scalar) {
                            Some(c) => c,
                            None => {
                                proof {
                                    assert(vstd::utf8::is_scalar(scalar));
                                }
                                return Err(());
                            },
                        };
                        proof {
                            vstd::arithmetic::div_mod::lemma_fundamental_div_mod_converse(
                                (scalar - 0x10000) as int,
                                0x400,
                                (u - 0xD800) as int,
                                (lo - 0xDC00) as int,
                            );
                            assert(wide_units_of_char(c, width) =~= seq![u, lo]);
                            lemma_wide_units_push(out@, c, width);
                            assert(v@.take(i + 2) =~= v@.take(i as int) + seq![u, lo]);
                        }
                        string_push(&mut out, c);
                        i = i + 2;
                    } else {
                        let c = match char_from_u32(u) {
                            Some(c) => c,
                            None => {
                                proof {
                                    assert(vstd::utf8::is_scalar(u));
                                }
                                return Err(());
                            },
                        };
                        proof {
                            assert(wide_units_of_char(c, width) =~= seq![u]);
                            lemma_wide_units_push(out@, c, width);
                            assert(v@.take(i + 1) =~= v@.take(i as int).push(u));
                        }
                        string_push(&mut out, c);
                        i = i + 1;
                    }
                },
                WideWidth::Four => {
                    let c = match char_from_u32(u) {
                        Some(c) => c,
                        None => {
                            proof {
                                lemma_undecodable_extension(out@, units, i as int, width);
                            }
                            return Err(());
                        },
                    };
                    proof {
                        assert(wide_units_of_char(c, width) =~= seq![u]);
                        lemma_wide_units_push(out@, c, width);
                        assert(v@.take(i + 1) =~= v@.take(i as int).push(u));
                    }
                    string_push(&mut out, c);
                    i = i + 1;
                },
            }
        }
        Ok(out)
    }
}

/// The codec's pass-through regime for the host-bridge target, where text
/// crosses the boundary as ordinary UTF-8 and no transcoding happens.  The
/// same embedded-null rejection applies, so callers observe one contract
/// on every target; on success the text passes through unchanged.
pub fn from_str_utf8(string: &str) -> (r: Result<String, ()>)
    ensures
        r is Ok <==> !string@.contains('\0'),
        r is Ok ==> r.unwrap()@ == string@,
{
    let len = string.unicode_len();
    let mut i: usize = 0;
    while i < len
        invariant
            i <= len,
            len == string@.len(),
            forall|j: int| 0 <= j < i ==> string@[j] != '\0',
        decreases len - i,
    {
        if string.get_char(i) == '\0' {
            proof {
                assert(string@.contains('\0'));
            }
            return Err(());
        }
        i = i + 1;
    }
    proof {
        if string@.contains('\0') {
            let k = choose|k: int| 0 <= k < string@.len() && string@[k] == '\0';
            assert(string@[k] != '\0');
        }
    }
    Ok(string.to_owned())
}

/// Appending a character appends exactly its buffer elements.
proof fn lemma_wide_units_push(s: Seq<char>, c: char, width: WideWidth)
    ensures
        wide_units(s.push(c), width) == wide_units(s, width) + wide_units_of_char(c, width),
    decreases s.len(),
{
    if s.len() == 0 {
        assert(s.push(c).drop_first() =~= s);
        assert(wide_units(s.push(c), width) =~= wide_units_of_char(c, width));
        assert(wide_units(s, width) + wide_units_of_char(c, width) =~= wide_units_of_char(c, width));
    } else {
        assert(s.push(c).drop_first() =~= s.drop_first().push(c));
        lemma_wide_units_push(s.drop_first(), c, width);
        assert(wide_units(s.push(c), width) =~= wide_units(s, width) + wide_units_of_char(c, width));
    }
}

/// Shape of one character's buffer elements: a single non-surrogate
/// element carrying the character's value, or, in the two-byte regime
/// only, a high/low surrogate pair for a character beyond 0xFFFF.
proof fn lemma_char_units_facts(c: char, width: WideWidth)
    ensures
        ({
            let e = wide_units_of_char(c, width);
            &&& 1 <= e.len() <= 2
            &&& e.len() == 1 ==> {
                &&& e[0] == c as u32
                &&& vstd::utf8::is_scalar(e[0])
                &&& !is_high_surrogate(e[0])
                &&& !is_low_surrogate(e[0])
                &&& (width == WideWidth::Two ==> e[0] < 0x10000)
            }
            &&& e.len() == 2 ==> {
                &&& width == WideWidth::Two
                &&& c as u32 >= 0x10000
                &&& is_high_surrogate(e[0])
                &&& is_low_surrogate(e[1])
                &&& c as u32 == 0x10000 + (e[0] - 0xD800) * 0x400 + (e[1] - 0xDC00)
            }
        }),
{
    vstd::utf8::char_is_scalar(c);
    let v = c as u32;
    match width {
        WideWidth::Four => {},
        WideWidth::Two => {
            if v >= 0x10000 {
                vstd::arithmetic::div_mod::lemma_fundamental_div_mod((v - 0x10000) as int, 0x400);
                assert(0 <= (v - 0x10000) / 0x400 <= 0x3FF) by {
                    vstd::arithmetic::div_mod::lemma_div_is_ordered(
                        (v - 0x10000) as int,
                        0xFFFFF,
                        0x400,
                    );
                }
            }
        },
    }
}

/// Two characters with the same buffer elements are the same character.
proof fn lemma_char_units_injective(c1: char, c2: char, width: WideWidth)
    requires
        wide_units_of_char(c1, width) == wide_units_of_char(c2, width),
    ensures
        c1 == c2,
{
    lemma_char_units_facts(c1, width);
    lemma_char_units_facts(c2, width);
    let e = wide_units_of_char(c1, width);
    assert(c1 as u32 == c2 as u32);
    vstd::utf8::char_u32_cast(c1, c1 as u32);
    vstd::utf8::char_u32_cast(c2, c2 as u32);
}

/// Encoding a concatenation concatenates the encodings.
proof fn lemma_wide_units_concat(a: Seq<char>, b: Seq<char>, width: WideWidth)
    ensures
        wide_units(a + b, width) == wide_units(a, width) + wide_units(b, width),
    decreases a.len(),
{
    if a.len() == 0 {
        assert(a + b =~= b);
        assert(wide_units(a, width) + wide_units(b, width) =~= wide_units(b, width));
    } else {
        assert((a + b).drop_first() =~= a.drop_first() + b);
        lemma_wide_units_concat(a.drop_first(), b, width);
        assert(wide_units(a + b, width) =~= wide_units(a, width) + wide_units(b, width));
    }
}

/// A string whose encoding is a prefix of another string's encoding is
/// itself a prefix of that string: the encoding is left-synchronizing.
proof fn lemma_prefix_sync(s: Seq<char>, d: Seq<char>, width: WideWidth)
    requires
        wide_units(d, width).is_prefix_of(wide_units(s, width)),
    ensures
        d.len() <= s.len(),
        d == s.take(d.len() as int),
    decreases d.len(),
{
    if d.len() == 0 {
        assert(d =~= s.take(0));
    } else {
        lemma_char_units_facts(d[0], width);
        let wd = wide_units(d, width);
        let u = wide_units(s, width);
        if s.len() == 0 {
            assert(wd.len() >= 1);
            assert(false);
        }
        lemma_char_units_facts(s[0], width);
        let ed = wide_units_of_char(d[0], width);
        let es = wide_units_of_char(s[0], width);
        assert(wd[0] == ed[0]);
        assert(u[0] == es[0]);
        assert(ed[0] == es[0]);
        assert(ed.len() == es.len()) by {
            if width == WideWidth::Two {
                if ed.len() == 1 && es.len() == 2 {
                    assert(is_high_surrogate(es[0]));
                    assert(!is_high_surrogate(ed[0]));
                }
                if ed.len() == 2 && es.len() == 1 {
                    assert(is_high_surrogate(ed[0]));
                    assert(!is_high_surrogate(es[0]));
                }
            }
        }
        assert(ed =~= es) by {
            if ed.len() == 2 {
                assert(wd.len() >= 2);
                assert(wd[1] == ed[1]);
                assert(u[1] == es[1]);
            }
        }
        lemma_char_units_injective(d[0], s[0], width);
        let k = ed.len() as int;
        let wdr = wide_units(d.drop_first(), width);
        let wsr = wide_units(s.drop_first(), width);
        assert(wd == ed + wdr);
        assert(u == es + wsr);
        assert(wdr.is_prefix_of(wsr)) by {
            assert(wdr.len() <= wsr.len());
            assert forall|i: int| 0 <= i < wdr.len() implies wdr[i] == wsr[i] by {
                assert(wdr[i] == wd[k + i]);
                assert(wd[k + i] == u.subrange(0, wd.len() as int)[k + i]);
                assert(u[k + i] == wsr[i]);
            }
            assert(wdr =~= wsr.subrange(0, wdr.len() as int));
        }
        lemma_prefix_sync(s.drop_first(), d.drop_first(), width);
        assert forall|i: int| 0 <= i < d.len() implies d[i] == s.take(d.len() as int)[i] by {
            if i > 0 {
                assert(d[i] == d.drop_first()[i - 1]);
                assert(d.drop_first()[i - 1] == s.drop_first().take(
                    d.drop_first().len() as int,
                )[i - 1]);
                assert(s.drop_first()[i - 1] == s[i]);
            }
        }
        assert(d =~= s.take(d.len() as int));
    }
}

/// Round-trip law, encoding side: in either width regime the wide
/// encoding of a string determines the string, so whatever a decoder
/// returns for an encoded buffer can only be the original text.
pub proof fn lemma_wide_units_injective(s: Seq<char>, t: Seq<char>, width: WideWidth)
    requires
        wide_units(s, width) == wide_units(t, width),
    ensures
        s == t,
{
    assert(wide_units(t, width).is_prefix_of(wide_units(s, width))) by {
        assert(wide_units(t, width) =~= wide_units(s, width).subrange(
            0,
            wide_units(t, width).len() as int,
        ));
    }
    assert(wide_units(s, width).is_prefix_of(wide_units(t, width))) by {
        assert(wide_units(s, width) =~= wide_units(t, width).subrange(
            0,
            wide_units(s, width).len() as int,
        ));
    }
    lemma_prefix_sync(s, t, width);
    lemma_prefix_sync(t, s, width);
    assert(s =~= t);
}

/// A string free of embedded nulls encodes to nonzero elements only, so
/// appending the terminator leaves exactly one zero in the buffer.
pub proof fn lemma_wide_units_nonzero(s: Seq<char>, width: WideWidth)
    requires
        !s.contains('\0'),
    ensures
        forall|i: int| 0 <= i < wide_units(s, width).len() ==> wide_units(s, width)[i] != 0,
    decreases s.len(),
{
    if s.len() > 0 {
        assert(s[0] != '\0') by {
            if s[0] == '\0' {
                assert(s.contains('\0'));
            }
        }
        lemma_char_units_facts(s[0], width);
        let e = wide_units_of_char(s[0], width);
        assert(forall|i: int| 0 <= i < e.len() ==> e[i] != 0) by {
            if e.len() == 1 && e[0] == 0 {
                vstd::utf8::char_u32_cast(s[0], 0u32);
                vstd::utf8::char_u32_cast('\0', 0u32);
            }
        }
        assert(!s.drop_first().contains('\0')) by {
            if s.drop_first().contains('\0') {
                let k = choose|k: int|
                    0 <= k < s.drop_first().len() && s.drop_first()[k] == '\0';
                assert(s[k + 1] == '\0');
                assert(s.contains('\0'));
            }
        }
        lemma_wide_units_nonzero(s.drop_first(), width);
        assert(wide_units(s, width) =~= e + wide_units(s.drop_first(), width));
    }
}

/// True when `n` is the position of the buffer's terminator: the first
/// zero element.
pub open spec fn is_terminator_index(u: Seq<u32>, n: int) -> bool {
    &&& 0 <= n < u.len()
    &&& u[n] == 0
    &&& forall|j: int| 0 <= j < n ==> u[j] != 0
}

/// A buffer has at most one terminator position.
proof fn lemma_terminator_unique(u: Seq<u32>, n1: int, n2: int)
    requires
        is_terminator_index(u, n1),
        is_terminator_index(u, n2),
    ensures
        n1 == n2,
{
}

/// Round-trip law: the encoded buffer of a string free of embedded nulls
/// has its one terminator exactly at the end, the elements before it are
/// the string's encoding, and no other string decodes from them.
pub proof fn lemma_encode_decode_round_trip(s: Seq<char>, width: WideWidth, w: CWcharString)
    requires
        !s.contains('\0'),
        w.width == width,
        w.represents(s),
    ensures
        is_terminator_index(w.data@, wide_units(s, width).len() as int),
        forall|n: int| #[trigger] is_terminator_index(w.data@, n) ==> w.data@.take(n)
            == wide_units(s, width),
        forall|t: Seq<char>| wide_units(t, width) == wide_units(s, width) ==> t == s,
{
    let units = wide_units(s, width);
    lemma_wide_units_nonzero(s, width);
    assert(is_terminator_index(w.data@, units.len() as int));
    assert forall|n: int| #[trigger] is_terminator_index(w.data@, n) implies w.data@.take(n)
        == units by {
        lemma_terminator_unique(w.data@, n, units.len() as int);
        assert(w.data@.take(units.len() as int) =~= units);
    }
    assert forall|t: Seq<char>| wide_units(t, width) == units implies t == s by {
        lemma_wide_units_injective(t, s, width);
    }
}

/// True when the element at `idx` cannot continue any character encoding:
/// in the four-byte regime a value that is no Unicode scalar, in the
/// two-byte regime a value beyond 0xFFFF, a stray low surrogate, or a
/// high surrogate not followed by a low one.
pub open spec fn undecodable_at(u: Seq<u32>, idx: int, width: WideWidth) -> bool {
    match width {
        WideWidth::Four => !vstd::utf8::is_scalar(u[idx]),
        WideWidth::Two => {
            ||| u[idx] >= 0x10000
            ||| is_low_surrogate(u[idx])
            ||| (is_high_surrogate(u[idx]) && (idx + 1 >= u.len() || !is_low_surrogate(
                u[idx + 1],
            )))
        },
    }
}

/// Decode-failure law: once a buffer reaches an undecodable element, no
/// string at all encodes to that buffer, whatever text `done` the
/// elements before it spelled.
pub proof fn lemma_undecodable_extension(
    done: Seq<char>,
    u: Seq<u32>,
    idx: int,
    width: WideWidth,
)
    requires
        0 <= idx < u.len(),
        wide_units(done, width) == u.take(idx),
        undecodable_at(u, idx, width),
    ensures
        forall|s: Seq<char>| wide_units(s, width) != u,
{
    assert forall|s: Seq<char>| wide_units(s, width) != u by {
        if wide_units(s, width) == u {
            assert(wide_units(done, width).is_prefix_of(wide_units(s, width))) by {
                assert(wide_units(done, width) =~= wide_units(s, width).subrange(0, idx));
            }
            lemma_prefix_sync(s, done, width);
            let tail = s.skip(done.len() as int);
            assert(s =~= done + tail);
            lemma_wide_units_concat(done, tail, width);
            let wt = wide_units(tail, width);
            assert(wt.len() == u.len() - idx);
            assert(tail.len() > 0);
            lemma_char_units_facts(tail[0], width);
            let e = wide_units_of_char(tail[0], width);
            assert(wt == e + wide_units(tail.drop_first(), width));
            assert(e[0] == wt[0]);
            assert(wt[0] == u[idx]);
            match width {
                WideWidth::Four => {
                    vstd::utf8::char_is_scalar(tail[0]);
                },
                WideWidth::Two => {
                    if e.len() == 2 {
                        assert(e[1] == wt[1]);
                        assert(wt[1] == u[idx + 1]);
                    }
                },
            }
        }
    }
}

/// Decode-failure law, width-2 instance: no string encodes to a buffer
/// that consists of one lone surrogate element.
pub proof fn lemma_lone_surrogate_rejected(u: u32)
    requires
        0xD800 <= u <= 0xDFFF,
    ensures
        forall|s: Seq<char>| wide_units(s, WideWidth::Two) != seq![u],
{
    assert(wide_units(Seq::<char>::empty(), WideWidth::Two) =~= seq![u].take(0));
    lemma_undecodable_extension(Seq::empty(), seq![u], 0, WideWidth::Two);
}

/// Decode-failure law, width-4 instance: no string encodes to a buffer
/// whose one element lies at or above 0x110000.
pub proof fn lemma_out_of_range_rejected(u: u32)
    requires
        u >= 0x110000,
    ensures
        forall|s: Seq<char>| wide_units(s, WideWidth::Four) != seq![u],
{
    assert(wide_units(Seq::<char>::empty(), WideWidth::Four) =~= seq![u].take(0));
    lemma_undecodable_extension(Seq::empty(), seq![u], 0, WideWidth::Four);
}

/// Relies on char::from_u32 of core: it answers Some exactly on Unicode
/// scalar values, yielding the character with that value.
#[verifier::external_body]
fn char_from_u32(u: u32) -> (r: Option<char>)
    ensures
        match r {
            Some(c) => vstd::utf8::is_scalar(u) && c as u32 == u,
            None => !vstd::utf8::is_scalar(u),
        },
{
    char::from_u32(u)
}

/// Relies on String::push of alloc: it appends the given character to the
/// end of the string.
#[verifier::external_body]
pub(crate) fn string_push(s: &mut String, c: char)
    ensures
        final(s)@ == old(s)@.push(c),
{
    s.push(c)
}

} // verus!

