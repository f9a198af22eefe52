//! The configuration-file parser: identifiers, quoted strings, numbers, and
//! nested `tag { ... }` blocks of semicolon-terminated properties.

use vstd::prelude::*;
use vstd::string::StrSliceExecFns;
use crate::config::{
    blocks_model, block_model, spec_get_property, Block, BlockModel, Config, ConfigModel, Error,
    ErrorModel, Property, PropertyModel, Server, ServerModel, Tag, Value, ValueModel,
};
use crate::text::{
    chars_to_string, find_char_from, is_digit, is_digit_char, digit_value, scan_spaces,
    spec_find_char, spec_starts_with, spec_trim, spec_trim_start, str_to_chars, subvec,
    trim_range,
};

verus! {

/// Whether a character has the Unicode `Alphabetic` property, as
/// `char::is_alphabetic` decides it: a function of the character alone.
pub uninterp spec fn char_alphabetic(c: char) -> bool;

/// Relies on `char::is_alphabetic`: whether the character is alphabetic.
pub assume_specification[ char::is_alphabetic ](c: char) -> (r: bool)
    ensures
        r == char_alphabetic(c),
;

/// Whether a character is numeric (Unicode `Nd`, `Nl` or `No`), as
/// `char::is_numeric` decides it: a function of the character alone.
pub uninterp spec fn char_numeric(c: char) -> bool;

/// Relies on `char::is_numeric`: whether the character is numeric; the
/// ASCII digits `0`–`9` are in Unicode category `Nd`, so they are numeric.
pub assume_specification[ char::is_numeric ](c: char) -> (r: bool)
    ensures
        r == char_numeric(c),
        is_digit_char(c) ==> r,
;

/// Whether a character may stand in an identifier.
pub open spec fn is_ident_char(c: char) -> bool {
    char_alphabetic(c) || c == '_'
}

/// The count of leading identifier characters.
pub open spec fn spec_ident_len(s: Seq<char>) -> int
    decreases s.len(),
{
    if s.len() > 0 && is_ident_char(s[0]) {
        1 + spec_ident_len(s.skip(1))
    } else {
        0
    }
}

/// An identifier prefix up to the first other character pins down its
/// length.
pub proof fn lemma_ident_len(s: Seq<char>, k: int)
    requires
        0 <= k <= s.len(),
        forall|j: int| 0 <= j < k ==> is_ident_char(s[j]),
        k == s.len() || !is_ident_char(s[k]),
    ensures
        spec_ident_len(s) == k,
    decreases k,
{
    if k > 0 {
        lemma_ident_len(s.skip(1), k - 1);
        assert(s.skip(1).skip(k - 1) =~= s.skip(k));
    }
}

/// The count of leading numeric characters.
pub open spec fn spec_numeric_len(s: Seq<char>) -> int
    decreases s.len(),
{
    if s.len() > 0 && char_numeric(s[0]) {
        1 + spec_numeric_len(s.skip(1))
    } else {
        0
    }
}

/// A numeric prefix up to the first other character pins down its length.
pub proof fn lemma_numeric_len(s: Seq<char>, k: int)
    requires
        0 <= k <= s.len(),
        forall|j: int| 0 <= j < k ==> char_numeric(s[j]),
        k == s.len() || !char_numeric(s[k]),
    ensures
        spec_numeric_len(s) == k,
    decreases k,
{
    if k > 0 {
        lemma_numeric_len(s.skip(1), k - 1);
        assert(s.skip(1).skip(k - 1) =~= s.skip(k));
    }
}

/// Whether every character of `p` is an ASCII decimal digit.
pub open spec fn spec_all_digits(p: Seq<char>) -> bool {
    forall|j: int| 0 <= j < p.len() ==> is_digit_char(p[j])
}

/// The number a digit string denotes, most significant digit first.
pub open spec fn spec_digits_value(p: Seq<char>) -> int
    decreases p.len(),
{
    if p.len() == 0 {
        0
    } else {
        spec_digits_value(p.drop_last()) * 10 + digit_value(p.last())
    }
}

/// A digit string denotes no negative number.
pub proof fn lemma_digits_value_nonneg(p: Seq<char>)
    requires
        spec_all_digits(p),
    ensures
        spec_digits_value(p) >= 0,
    decreases p.len(),
{
    if p.len() > 0 {
        lemma_digits_value_nonneg(p.drop_last());
    }
}

/// Reading more digits never shrinks the denoted number.
pub proof fn lemma_digits_value_extend(p: Seq<char>, k: int)
    requires
        0 <= k <= p.len(),
        spec_all_digits(p),
    ensures
        spec_digits_value(p) >= spec_digits_value(p.take(k)),
    decreases p.len() - k,
{
    if k < p.len() {
        assert(p.drop_last() =~= p.take(p.len() - 1));
        assert(spec_all_digits(p.take(p.len() - 1)));
        lemma_digits_value_extend(p.take(p.len() - 1), k);
        assert(p.take(p.len() - 1).take(k) =~= p.take(k));
        lemma_digits_value_nonneg(p.take(p.len() - 1));
        assert(p.take(p.len() as int) =~= p);
    } else {
        assert(p.take(k) =~= p);
    }
}

/// What `u32` parsing makes of a digit prefix: a value only when every
/// character is an ASCII digit and the value fits.
pub open spec fn spec_parse_u32(p: Seq<char>) -> Option<int> {
    if spec_all_digits(p) && spec_digits_value(p) <= u32::MAX {
        Some(spec_digits_value(p))
    } else {
        None
    }
}

/// Consuming up to and including the first `c` (or the whole input when
/// there is none), then leading whitespace; the flag says whether anything
/// was consumed.
pub open spec fn spec_take_inclusive(c: char, s: Seq<char>) -> (Seq<char>, bool) {
    let len = match spec_find_char(s, c) {
        Some(i) => i + 1,
        None => s.len() as int,
    };
    (spec_trim_start(s.skip(len)), len > 0)
}

/// Reading an identifier: its leading alphabetic-or-underscore characters,
/// with the remainder stripped of leading whitespace; an empty identifier is
/// an error naming the trimmed input.
pub open spec fn spec_ident(s: Seq<char>) -> Result<(Seq<char>, Seq<char>), ErrorModel> {
    let len = spec_ident_len(s);
    if len == 0 {
        Err(ErrorModel::ExpectedIdentifier(spec_trim(s)))
    } else {
        Ok((spec_trim_start(s.skip(len)), spec_trim(s.take(len))))
    }
}

/// Reading a quoted string: the input must open with `"` and hold a closing
/// `"`; the value is the text between the quotes and the remainder is
/// stripped of leading whitespace.
pub open spec fn spec_string(s: Seq<char>) -> Result<(Seq<char>, ValueModel), ErrorModel> {
    if !(s.len() > 0 && s[0] == '"') {
        Err(ErrorModel::StringExpectedStartingQuote(s))
    } else {
        match spec_find_char(s.skip(1), '"') {
            None => Err(ErrorModel::StringExpectedEndingQuote(s)),
            Some(j) => Ok(
                (spec_trim_start(s.skip(j + 2)), ValueModel::String(s.subrange(1, j + 1))),
            ),
        }
    }
}

/// Reading a number: the leading numeric characters, parsed as a `u32`; no
/// numeric character at all is an error naming the trimmed input, a prefix
/// that `u32` parsing rejects one naming that prefix. The remainder is not
/// trimmed.
pub open spec fn spec_number(s: Seq<char>) -> Result<(Seq<char>, ValueModel), ErrorModel> {
    let n = spec_numeric_len(s);
    if n == 0 {
        Err(ErrorModel::InvalidNumber(spec_trim(s)))
    } else {
        match spec_parse_u32(s.take(n)) {
            Some(v) => Ok((s.skip(n), ValueModel::Number(v))),
            None => Err(ErrorModel::InvalidNumber(s.take(n))),
        }
    }
}

/// Reading a value: a string when one starts here, otherwise a number, with
/// the number's error reported when both fail.
pub open spec fn spec_alt(s: Seq<char>) -> Result<(Seq<char>, ValueModel), ErrorModel> {
    match spec_string(s) {
        Ok(r) => Ok(r),
        Err(_) => spec_number(s),
    }
}

/// Reading a property's value and its terminating semicolon, under a name
/// read by the caller.
pub open spec fn spec_property_with_name(s: Seq<char>, name: Seq<char>) -> Result<
    (Seq<char>, PropertyModel),
    ErrorModel,
> {
    match spec_alt(s) {
        Err(e) => Err(e),
        Ok((r1, value)) => {
            let t = spec_take_inclusive(';', r1);
            Ok((t.0, PropertyModel { name, value }))
        },
    }
}

/// Whether the block body ends here: at the end of input or before a `}`.
pub open spec fn spec_items_end(s: Seq<char>) -> bool {
    s.len() == 0 || spec_starts_with(s, seq!['}'])
}

/// Reading a block body: identifiers followed by either a nested block or a
/// property, until the input ends or a `}` follows. Parsing always consumes
/// characters, so the remainder-shrinks guards below always hold; they make
/// termination evident.
pub open spec fn spec_properties_and_blocks(s: Seq<char>) -> Result<
    (Seq<char>, Seq<PropertyModel>, Seq<BlockModel>),
    ErrorModel,
>
    decreases s.len(), 1int,
{
    match spec_ident(s) {
        Err(e) => Err(e),
        Ok((i_, name)) => {
            if spec_starts_with(i_, seq!['{']) {
                match spec_block(s) {
                    Err(e) => Err(e),
                    Ok((i2, blk)) => if spec_items_end(i2) {
                        Ok((i2, Seq::empty(), seq![blk]))
                    } else if i2.len() < s.len() {
                        match spec_properties_and_blocks(i2) {
                            Err(e) => Err(e),
                            Ok((i3, ps, bs)) => Ok((i3, ps, seq![blk] + bs)),
                        }
                    } else {
                        Err(ErrorModel::ExpectedSemicolon)
                    },
                }
            } else {
                match spec_property_with_name(i_, name) {
                    Err(e) => Err(e),
                    Ok((i2, p)) => if spec_items_end(i2) {
                        Ok((i2, seq![p], Seq::empty()))
                    } else if i2.len() < s.len() {
                        match spec_properties_and_blocks(i2) {
                            Err(e) => Err(e),
                            Ok((i3, ps, bs)) => Ok((i3, seq![p] + ps, bs)),
                        }
                    } else {
                        Err(ErrorModel::ExpectedSemicolon)
                    },
                }
            }
        },
    }
}

/// Reading one block: its tag identifier, then its braced body.
pub open spec fn spec_block(s: Seq<char>) -> Result<(Seq<char>, BlockModel), ErrorModel>
    decreases s.len(), 0int,
{
    match spec_ident(s) {
        Err(e) => Err(e),
        Ok((i_, tag)) => if i_.len() < s.len() {
            spec_block_with_tag(i_, tag)
        } else {
            Err(ErrorModel::ExpectedSemicolon)
        },
    }
}

/// Reading a block body between braces, under a tag read by the caller.
pub open spec fn spec_block_with_tag(s: Seq<char>, tag: Seq<char>) -> Result<
    (Seq<char>, BlockModel),
    ErrorModel,
>
    decreases s.len(), 2int,
{
    let t1 = spec_take_inclusive('{', s);
    if t1.0.len() <= s.len() {
        match spec_properties_and_blocks(t1.0) {
            Err(e) => Err(e),
            Ok((i2, ps, bs)) => {
                let t3 = spec_take_inclusive('}', i2);
                Ok((t3.0, BlockModel { tag, properties: ps, children: bs }))
            },
        }
    } else {
        Err(ErrorModel::ExpectedSemicolon)
    }
}

/// The mathematical value of an identifier-parse result.
pub open spec fn view_ident_result(r: Result<(String, String), Error>) -> Result<
    (Seq<char>, Seq<char>),
    ErrorModel,
> {
    match r {
        Ok((rest, name)) => Ok((rest@, name@)),
        Err(e) => Err(e@),
    }
}

/// The mathematical value of a value-parse result.
pub open spec fn view_value_result(r: Result<(String, Value), Error>) -> Result<
    (Seq<char>, ValueModel),
    ErrorModel,
> {
    match r {
        Ok((rest, v)) => Ok((rest@, v@)),
        Err(e) => Err(e@),
    }
}

/// The mathematical value of a property-parse result.
pub open spec fn view_property_result(r: Result<(String, Property), Error>) -> Result<
    (Seq<char>, PropertyModel),
    ErrorModel,
> {
    match r {
        Ok((rest, p)) => Ok((rest@, p@)),
        Err(e) => Err(e@),
    }
}

/// The mathematical value of a block-parse result.
pub open spec fn view_block_result(r: Result<(String, Block), Error>) -> Result<
    (Seq<char>, BlockModel),
    ErrorModel,
> {
    match r {
        Ok((rest, b)) => Ok((rest@, b@)),
        Err(e) => Err(e@),
    }
}

/// The mathematical value of a block-body parse result.
pub open spec fn view_items_result(r: Result<(String, Vec<Property>, Vec<Block>), Error>) -> Result<
    (Seq<char>, Seq<PropertyModel>, Seq<BlockModel>),
    ErrorModel,
> {
    match r {
        Ok((rest, ps, bs)) => Ok(
            (rest@, ps@.map_values(|p: Property| p@), blocks_model(bs@)),
        ),
        Err(e) => Err(e@),
    }
}

/// Consumes up to and including the first `c`, then leading whitespace, as
/// [`spec_take_inclusive`] says.
pub fn take_inclusive(c: char, i: &str) -> (r: (String, bool))
    ensures
        (r.0@, r.1) == spec_take_inclusive(c, i@),
        r.0@.len() <= i@.len(),
{
    let v = str_to_chars(i);
    proof {
        assert(v@.skip(0) =~= v@);
    }
    let len: usize = match find_char_from(&v, 0, c) {
        Some(j) => {
            let n = v.len();
            assert(j < n);
            j + 1
        },
        None => v.len(),
    };
    let a = scan_spaces(&v, len);
    let rest = subvec(&v, a, v.len());
    proof {
        assert(rest@ =~= v@.skip(a as int));
        crate::text::lemma_trim_start_len(v@.skip(len as int));
    }
    (chars_to_string(&rest), len > 0)
}

/// Reads an identifier, as [`spec_ident`] says.
pub fn ident(i: &str) -> (r: Result<(String, String), Error>)
    ensures
        view_ident_result(r) == spec_ident(i@),
        r matches Ok(x) ==> x.0@.len() < i@.len(),
{
    let v = str_to_chars(i);
    let mut len: usize = 0;
    while len < v.len() && (v[len].is_alphabetic() || v[len] == '_')
        invariant
            len <= v@.len(),
            v@ == i@,
            forall|j: int| 0 <= j < len ==> is_ident_char(v@[j]),
        decreases v@.len() - len,
    {
        len = len + 1;
    }
    proof {
        lemma_ident_len(v@, len as int);
    }
    if len == 0 {
        let t = trim_range(&v, 0);
        proof {
            assert(v@.skip(0) =~= v@);
        }
        return Err(Error::ExpectedIdentifier(chars_to_string(&t)));
    }
    let a = scan_spaces(&v, len);
    let rest = subvec(&v, a, v.len());
    let name_raw = subvec(&v, 0, len);
    let name = trim_range(&name_raw, 0);
    proof {
        assert(rest@ =~= v@.skip(a as int));
        assert(name_raw@.skip(0) =~= name_raw@);
        assert(name_raw@ =~= v@.take(len as int));
        crate::text::lemma_trim_start_len(v@.skip(len as int));
    }
    Ok((chars_to_string(&rest), chars_to_string(&name)))
}

/// Reads a quoted string value, as [`spec_string`] says.
pub fn string(i: &str) -> (r: Result<(String, Value), Error>)
    ensures
        view_value_result(r) == spec_string(i@),
        r matches Ok(x) ==> x.0@.len() < i@.len(),
{
    let v = str_to_chars(i);
    if !(v.len() > 0 && v[0] == '"') {
        return Err(Error::StringExpectedStartingQuote(i.to_owned()));
    }
    match find_char_from(&v, 1, '"') {
        None => {
            proof {
                assert(spec_find_char(v@.skip(1), '"') is None);
            }
            Err(Error::StringExpectedEndingQuote(i.to_owned()))
        },
        Some(j) => {
            let n = v.len();
            assert(j < n);
            let value = subvec(&v, 1, j);
            let a = scan_spaces(&v, j + 1);
            let rest = subvec(&v, a, v.len());
            proof {
                assert(value@ =~= v@.subrange(1, (j - 1) + 1));
                assert(rest@ =~= v@.skip(a as int));
                assert(v@.skip((j + 1) as int) =~= v@.skip((j - 1) + 2));
                crate::text::lemma_trim_start_len(v@.skip((j + 1) as int));
            }
            Ok((chars_to_string(&rest), Value::String(chars_to_string(&value))))
        },
    }
}

/// Reads a number value, as [`spec_number`] says.
pub fn number(i: &str) -> (r: Result<(String, Value), Error>)
    ensures
        view_value_result(r) == spec_number(i@),
        r matches Ok(x) ==> x.0@.len() < i@.len(),
{
    let v = str_to_chars(i);
    let mut n: usize = 0;
    while n < v.len() && v[n].is_numeric()
        invariant
            n <= v@.len(),
            v@ == i@,
            forall|j: int| 0 <= j < n ==> char_numeric(v@[j]),
        decreases v@.len() - n,
    {
        n = n + 1;
    }
    proof {
        lemma_numeric_len(v@, n as int);
    }
    if n == 0 {
        let t = trim_range(&v, 0);
        proof {
            assert(v@.skip(0) =~= v@);
        }
        return Err(Error::InvalidNumber(chars_to_string(&t)));
    }
    let prefix = subvec(&v, 0, n);
    proof {
        assert(prefix@ =~= v@.take(n as int));
    }
    let mut acc: u64 = 0;
    let mut k: usize = 0;
    proof {
        assert(prefix@.take(0) =~= Seq::<char>::empty());
    }
    while k < prefix.len()
        invariant
            k <= prefix@.len(),
            prefix@ == v@.take(n as int),
            spec_numeric_len(v@) == n as int,
            1 <= n <= v@.len(),
            v@ == i@,
            forall|j: int| 0 <= j < k ==> is_digit_char(prefix@[j]),
            acc == spec_digits_value(prefix@.take(k as int)),
            acc <= u32::MAX,
        decreases prefix@.len() - k,
    {
        let c = prefix[k];
        if !is_digit(c) {
            assert(!spec_all_digits(prefix@));
            return Err(Error::InvalidNumber(chars_to_string(&prefix)));
        }
        let d: u64 = ((c as u32) - 0x30) as u64;
        acc = acc * 10 + d;
        k = k + 1;
        proof {
            assert(prefix@.take(k as int).drop_last() =~= prefix@.take(k - 1));
            assert(prefix@.take(k as int).last() == prefix@[k - 1]);
        }
        if acc > u32::MAX as u64 {
            proof {
                if spec_all_digits(prefix@) {
                    lemma_digits_value_extend(prefix@, k as int);
                    assert(prefix@.take(prefix@.len() as int) =~= prefix@);
                }
            }
            return Err(Error::InvalidNumber(chars_to_string(&prefix)));
        }
    }
    proof {
        assert(prefix@.take(k as int) =~= prefix@);
    }
    let rest = subvec(&v, n, v.len());
    proof {
        assert(rest@ =~= v@.skip(n as int));
    }
    Ok((chars_to_string(&rest), Value::Number(acc as u32)))
}

/// Tries a string, then a number, as [`spec_alt`] says.
pub fn alt(i: &str) -> (r: Result<(String, Value), Error>)
    ensures
        view_value_result(r) == spec_alt(i@),
        r matches Ok(x) ==> x.0@.len() < i@.len(),
{
    match string(i) {
        Ok(r) => Ok(r),
        Err(_e) => number(i),
    }
}

/// Reads a property's value and terminating semicolon under the given name,
/// as [`spec_property_with_name`] says.
pub fn property_with_name(i: &str, name: &str) -> (r: Result<(String, Property), Error>)
    ensures
        view_property_result(r) == spec_property_with_name(i@, name@),
        r matches Ok(x) ==> x.0@.len() < i@.len(),
{
    let (r1, value) = match alt(i) {
        Ok(x) => x,
        Err(e) => {
            return Err(e);
        },
    };
    let (r2, _had) = take_inclusive(';', r1.as_str());
    Ok((r2, Property { name: name.to_owned(), value }))
}


/// Whether the block body ends here, at runtime.
fn items_end(i: &str) -> (r: bool)
    ensures
        r == spec_items_end(i@),
{
    let n = i.unicode_len();
    if n == 0 {
        return true;
    }
    let c = i.get_char(0);
    proof {
        assert(i@.take(1) =~= seq![i@[0]]);
        assert(seq![i@[0]][0] == i@[0]);
        assert(seq!['}'][0] == '}');
        if i@[0] == '}' {
            assert(i@.take(1) =~= seq!['}']);
        }
    }
    c == '}'
}

/// Whether the input opens a block body, at runtime.
fn starts_brace(i: &str) -> (r: bool)
    ensures
        r == spec_starts_with(i@, seq!['{']),
{
    let n = i.unicode_len();
    if n == 0 {
        proof {
            assert(!spec_starts_with(i@, seq!['{']));
        }
        return false;
    }
    let c = i.get_char(0);
    proof {
        assert(i@.take(1) =~= seq![i@[0]]);
        assert(seq![i@[0]][0] == i@[0]);
        assert(seq!['{'][0] == '{');
        if i@[0] == '{' {
            assert(i@.take(1) =~= seq!['{']);
        }
    }
    c == '{'
}

/// Reads a block body, as [`spec_properties_and_blocks`] says: identifiers
/// followed by a nested block or a property, until the input ends or a `}`
/// follows.
pub fn properties_and_blocks(i: &str) -> (r: Result<(String, Vec<Property>, Vec<Block>), Error>)
    ensures
        view_items_result(r) == spec_properties_and_blocks(i@),
        r matches Ok(x) ==> x.0@.len() < i@.len(),
    decreases i@.len(), 1int,
{
    let (i_, name) = match ident(i) {
        Ok(x) => x,
        Err(e) => {
            return Err(e);
        },
    };
    if starts_brace(i_.as_str()) {
        let (i2, blk) = match block(i) {
            Ok(x) => x,
            Err(e) => {
                return Err(e);
            },
        };
        if items_end(i2.as_str()) {
            let mut blocks: Vec<Block> = Vec::new();
            blocks.push(blk);
            let props_empty: Vec<Property> = Vec::new();
            proof {
                assert(blocks@.skip(1) =~= Seq::<Block>::empty());
                assert(blocks_model(Seq::<Block>::empty()) =~= Seq::<BlockModel>::empty());
                assert(blocks_model(blocks@) =~= seq![block_model(blocks@[0])]);
                assert(props_empty@.map_values(|p: Property| p@) =~= Seq::<PropertyModel>::empty());
            }
            Ok((i2, props_empty, blocks))
        } else {
            let (i3, ps, mut bs) = match properties_and_blocks(i2.as_str()) {
                Ok(x) => x,
                Err(e) => {
                    return Err(e);
                },
            };
            let ghost bs0 = bs@;
            bs.insert(0, blk);
            proof {
                assert(bs@ =~= seq![blk] + bs0);
                assert(bs@.skip(1) =~= bs0);
                assert(blocks_model(bs@) =~= seq![block_model(blk)] + blocks_model(bs0));
            }
            Ok((i3, ps, bs))
        }
    } else {
        let (i2, prop) = match property_with_name(i_.as_str(), name.as_str()) {
            Ok(x) => x,
            Err(e) => {
                return Err(e);
            },
        };
        if items_end(i2.as_str()) {
            let mut props: Vec<Property> = Vec::new();
            props.push(prop);
            let blocks_empty: Vec<Block> = Vec::new();
            proof {
                assert(props@.map_values(|p: Property| p@) =~= seq![prop@]);
                assert(blocks_model(blocks_empty@) =~= Seq::<BlockModel>::empty());
            }
            Ok((i2, props, blocks_empty))
        } else {
            let (i3, mut ps, bs) = match properties_and_blocks(i2.as_str()) {
                Ok(x) => x,
                Err(e) => {
                    return Err(e);
                },
            };
            let ghost ps0 = ps@;
            ps.insert(0, prop);
            proof {
                assert(ps@ =~= seq![prop] + ps0);
                assert(ps@.map_values(|p: Property| p@) =~= seq![prop@] + ps0.map_values(
                    |p: Property| p@,
                ));
            }
            Ok((i3, ps, bs))
        }
    }
}

/// Reads one block, as [`spec_block`] says.
pub fn block(i: &str) -> (r: Result<(String, Block), Error>)
    ensures
        view_block_result(r) == spec_block(i@),
        r matches Ok(x) ==> x.0@.len() < i@.len(),
    decreases i@.len(), 0int,
{
    let (i_, tag) = match ident(i) {
        Ok(x) => x,
        Err(e) => {
            return Err(e);
        },
    };
    block_with_tag(i_.as_str(), tag.as_str())
}

/// Reads a braced block body under a tag read by the caller, as
/// [`spec_block_with_tag`] says.
pub fn block_with_tag(i: &str, tag: &str) -> (r: Result<(String, Block), Error>)
    ensures
        view_block_result(r) == spec_block_with_tag(i@, tag@),
        r matches Ok(x) ==> x.0@.len() <= i@.len(),
    decreases i@.len(), 2int,
{
    let (i1, _had_open) = take_inclusive('{', i);
    let (i2, props, blocks) = match properties_and_blocks(i1.as_str()) {
        Ok(x) => x,
        Err(e) => {
            return Err(e);
        },
    };
    let (i3, _had_close) = take_inclusive('}', i2.as_str());
    let b = Block { tag: Tag::from(tag), properties: props, children: blocks };
    Ok((i3, b))
}

/// Reads the server block and materializes it.
pub fn server(i: &str) -> (r: Result<(String, Server), Error>)
    ensures
        (match r {
            Ok((rest, sv)) => spec_server(i@) matches Ok(m) && (rest@, sv@) == m,
            Err(e) => spec_server(i@) matches Err(m) && e@ == m,
        }),
{
    let (rest, blk) = match block(i) {
        Ok(x) => x,
        Err(e) => {
            return Err(e);
        },
    };
    match Server::try_from(blk) {
        Ok(sv) => Ok((rest, sv)),
        Err(e) => Err(e),
    }
}

/// Reading the server block and its materialization.
pub open spec fn spec_server(s: Seq<char>) -> Result<(Seq<char>, ServerModel), ErrorModel> {
    match spec_block(s) {
        Err(e) => Err(e),
        Ok((rest, b)) => match crate::config::spec_server_from_block(b) {
            Err(e) => Err(e),
            Ok(sv) => Ok((rest, sv)),
        },
    }
}

/// Reading a whole configuration: the server block after leading
/// whitespace; what follows it is ignored and the whole input text is handed
/// back.
pub open spec fn spec_config(s: Seq<char>) -> Result<(Seq<char>, ConfigModel), ErrorModel> {
    match spec_server(spec_trim_start(s)) {
        Err(e) => Err(e),
        Ok((_rest, sv)) => Ok((s, ConfigModel { server: sv })),
    }
}

/// Reads a whole configuration, as [`spec_config`] says.
pub fn config(i: &str) -> (r: Result<(String, Config), Error>)
    ensures
        (match r {
            Ok((rest, c)) => spec_config(i@) matches Ok(m) && (rest@, c@) == m,
            Err(e) => spec_config(i@) matches Err(m) && e@ == m,
        }),
{
    let v = str_to_chars(i);
    let a = scan_spaces(&v, 0);
    let trimmed = subvec(&v, a, v.len());
    proof {
        assert(v@.skip(0) =~= v@);
        assert(trimmed@ =~= v@.skip(a as int));
    }
    let ts = chars_to_string(&trimmed);
    match server(ts.as_str()) {
        Ok((_rest, sv)) => Ok((i.to_owned(), Config { server: sv })),
        Err(e) => Err(e),
    }
}

} // verus!
