//! Random passwords over chosen character classes; also the source of keyed-hash secrets.
use vstd::prelude::*;

use crate::codec::ascii_text;

verus! {

broadcast use vstd::seq_lib::group_to_multiset_ensures;

/// What a password must be made of.
pub struct GenPassOpts {
    pub length: u8,
    pub lowercase: bool,
    pub uppercase: bool,
    pub number: bool,
    pub symbol: bool,
}

/// Options that no password can meet.
#[derive(Debug, Clone, Copy, PartialEq, Eq, Structural)]
pub enum GenPassError {
    /// Characters are asked for, but every class is switched off.
    NoCharacterClass,
    /// The length is below the number of classes that must each appear.
    TooShort,
}

/// Upper-case letters; `I` is left out, as too like `l` and `1`.
pub open spec fn upper_letters() -> Seq<u8> {
    seq![
        'A' as u8, 'B' as u8, 'C' as u8, 'D' as u8, 'E' as u8, 'F' as u8, 'G' as u8,
        'H' as u8, 'J' as u8, 'K' as u8, 'L' as u8, 'M' as u8, 'N' as u8, 'O' as u8,
        'P' as u8, 'Q' as u8, 'R' as u8, 'S' as u8, 'T' as u8, 'U' as u8, 'V' as u8,
        'W' as u8, 'X' as u8, 'Y' as u8, 'Z' as u8,
    ]
}

/// Lower-case letters; `l` is left out, as too like `I` and `1`.
pub open spec fn lower_letters() -> Seq<u8> {
    seq![
        'a' as u8, 'b' as u8, 'c' as u8, 'd' as u8, 'e' as u8, 'f' as u8, 'g' as u8,
        'h' as u8, 'i' as u8, 'j' as u8, 'k' as u8, 'm' as u8, 'n' as u8, 'o' as u8,
        'p' as u8, 'q' as u8, 'r' as u8, 's' as u8, 't' as u8, 'u' as u8, 'v' as u8,
        'w' as u8, 'x' as u8, 'y' as u8, 'z' as u8,
    ]
}

/// Decimal digits.
pub open spec fn digits() -> Seq<u8> {
    seq![
        '0' as u8, '1' as u8, '2' as u8, '3' as u8, '4' as u8, '5' as u8, '6' as u8,
        '7' as u8, '8' as u8, '9' as u8,
    ]
}

/// The punctuation that passwords may hold.
pub open spec fn symbols() -> Seq<u8> {
    seq![
        '!' as u8, '@' as u8, '#' as u8, '$' as u8, '%' as u8, '^' as u8, '&' as u8,
        '*' as u8, '_' as u8,
    ]
}

/// Whether `c` belongs to a class that `opts` switches on.
pub open spec fn allowed(opts: GenPassOpts, c: u8) -> bool {
    ||| opts.uppercase && upper_letters().contains(c)
    ||| opts.lowercase && lower_letters().contains(c)
    ||| opts.number && digits().contains(c)
    ||| opts.symbol && symbols().contains(c)
}

/// How many classes `opts` switches on.
pub open spec fn class_count(opts: GenPassOpts) -> nat {
    (if opts.uppercase { 1nat } else { 0nat }) + (if opts.lowercase { 1nat } else { 0nat }) + (
    if opts.number { 1nat } else { 0nat }) + (if opts.symbol { 1nat } else { 0nat })
}

/// Why no password meets `opts`, if none does.
pub open spec fn genpass_error(opts: GenPassOpts) -> Option<GenPassError> {
    if class_count(opts) == 0 && opts.length > 0 {
        Some(GenPassError::NoCharacterClass)
    } else if opts.length < class_count(opts) {
        Some(GenPassError::TooShort)
    } else {
        None
    }
}

/// Whether some character of `p` belongs to `class`.
pub open spec fn has_one_of(p: Seq<u8>, class: Seq<u8>) -> bool {
    exists|i: int| 0 <= i < p.len() && class.contains(#[trigger] p[i])
}

/// A password for `opts`: its length, every character from a class switched on,
/// and at least one from each.
pub open spec fn fits(opts: GenPassOpts, p: Seq<u8>) -> bool {
    &&& p.len() == opts.length
    &&& forall|i: int| 0 <= i < p.len() ==> allowed(opts, #[trigger] p[i])
    &&& opts.uppercase ==> has_one_of(p, upper_letters())
    &&& opts.lowercase ==> has_one_of(p, lower_letters())
    &&& opts.number ==> has_one_of(p, digits())
    &&& opts.symbol ==> has_one_of(p, symbols())
}

/// Relies on rand's `SliceRandom::choose` with the thread-local generator: nothing
/// from an empty pool, else one of its elements.
#[verifier::external_body]
fn choose_byte(pool: &[u8]) -> (r: Option<u8>)
    ensures
        pool@.len() == 0 <==> r is None,
        r matches Some(c) ==> pool@.contains(c),
{
    rand::seq::SliceRandom::choose(pool, &mut rand::thread_rng()).copied()
}

/// Relies on rand's `SliceRandom::shuffle` with the thread-local generator, which
/// permutes the elements in place.
#[verifier::external_body]
fn shuffle_bytes(bytes: &mut Vec<u8>)
    ensures
        final(bytes)@.to_multiset() == old(bytes)@.to_multiset(),
{
    rand::seq::SliceRandom::shuffle(bytes.as_mut_slice(), &mut rand::thread_rng())
}

/// Relies on `String::from_utf8`, which accepts every ASCII byte string and keeps
/// its characters in order.
#[verifier::external_body]
fn ascii_string(bytes: Vec<u8>) -> (r: String)
    requires
        forall|i: int| 0 <= i < bytes@.len() ==> bytes@[i] < 128,
    ensures
        r@ == ascii_text(bytes@),
{
    String::from_utf8(bytes).unwrap_or_default()
}

fn upper_class() -> (r: Vec<u8>)
    ensures
        r@ == upper_letters(),
{
    let r = vec![
        'A' as u8, 'B' as u8, 'C' as u8, 'D' as u8, 'E' as u8, 'F' as u8, 'G' as u8,
        'H' as u8, 'J' as u8, 'K' as u8, 'L' as u8, 'M' as u8, 'N' as u8, 'O' as u8,
        'P' as u8, 'Q' as u8, 'R' as u8, 'S' as u8, 'T' as u8, 'U' as u8, 'V' as u8,
        'W' as u8, 'X' as u8, 'Y' as u8, 'Z' as u8,
    ];
    assert(r@ =~= upper_letters());
    r
}

fn lower_class() -> (r: Vec<u8>)
    ensures
        r@ == lower_letters(),
{
    let r = vec![
        'a' as u8, 'b' as u8, 'c' as u8, 'd' as u8, 'e' as u8, 'f' as u8, 'g' as u8,
        'h' as u8, 'i' as u8, 'j' as u8, 'k' as u8, 'm' as u8, 'n' as u8, 'o' as u8,
        'p' as u8, 'q' as u8, 'r' as u8, 's' as u8, 't' as u8, 'u' as u8, 'v' as u8,
        'w' as u8, 'x' as u8, 'y' as u8, 'z' as u8,
    ];
    assert(r@ =~= lower_letters());
    r
}

fn digit_class() -> (r: Vec<u8>)
    ensures
        r@ == digits(),
{
    let r = vec![
        '0' as u8, '1' as u8, '2' as u8, '3' as u8, '4' as u8, '5' as u8, '6' as u8,
        '7' as u8, '8' as u8, '9' as u8,
    ];
    assert(r@ =~= digits());
    r
}

fn symbol_class() -> (r: Vec<u8>)
    ensures
        r@ == symbols(),
{
    let r = vec![
        '!' as u8, '@' as u8, '#' as u8, '$' as u8, '%' as u8, '^' as u8, '&' as u8,
        '*' as u8, '_' as u8,
    ];
    assert(r@ =~= symbols());
    r
}

/// Every character of every class is ASCII.
proof fn lemma_allowed_is_ascii(opts: GenPassOpts, c: u8)
    requires
        allowed(opts, c),
    ensures
        c < 128,
{
    if upper_letters().contains(c) {
        let i = choose|i: int| 0 <= i < upper_letters().len() && upper_letters()[i] == c;
        assert(0 <= i < 25);
    } else if lower_letters().contains(c) {
        let i = choose|i: int| 0 <= i < lower_letters().len() && lower_letters()[i] == c;
        assert(0 <= i < 25);
    } else if digits().contains(c) {
        let i = choose|i: int| 0 <= i < digits().len() && digits()[i] == c;
        assert(0 <= i < 10);
    } else {
        let i = choose|i: int| 0 <= i < symbols().len() && symbols()[i] == c;
        assert(0 <= i < 9);
    }
}

/// A character of `class` that occurs in `before` occurs in any rearrangement of it.
proof fn lemma_rearranged_has_one_of(before: Seq<u8>, after: Seq<u8>, class: Seq<u8>)
    requires
        before.to_multiset() == after.to_multiset(),
        has_one_of(before, class),
    ensures
        has_one_of(after, class),
{
    let i = choose|i: int| 0 <= i < before.len() && class.contains(#[trigger] before[i]);
    let c = before[i];
    assert(before.contains(c));
    assert(after.to_multiset().count(c) > 0);
    assert(after.contains(c));
    let j = choose|j: int| 0 <= j < after.len() && after[j] == c;
    assert(class.contains(after[j]));
}

/// Rearranging a password keeps it a password for the same options.
proof fn lemma_rearranged_fits(opts: GenPassOpts, before: Seq<u8>, after: Seq<u8>)
    requires
        before.to_multiset() == after.to_multiset(),
        fits(opts, before),
    ensures
        fits(opts, after),
{
    before.to_multiset_ensures();
    after.to_multiset_ensures();
    assert forall|i: int| 0 <= i < after.len() implies allowed(opts, #[trigger] after[i]) by {
        let c = after[i];
        assert(after.contains(c));
        assert(before.to_multiset().count(c) > 0);
        assert(before.contains(c));
        let j = choose|j: int| 0 <= j < before.len() && before[j] == c;
        assert(allowed(opts, before[j]));
    }
    if opts.uppercase {
        lemma_rearranged_has_one_of(before, after, upper_letters());
    }
    if opts.lowercase {
        lemma_rearranged_has_one_of(before, after, lower_letters());
    }
    if opts.number {
        lemma_rearranged_has_one_of(before, after, digits());
    }
    if opts.symbol {
        lemma_rearranged_has_one_of(before, after, symbols());
    }
}

/// Adds one random character of `class` to the password and the whole class to the pool.
fn take_from_class(class: Vec<u8>, password: &mut Vec<u8>, pool: &mut Vec<u8>)
    requires
        class@.len() > 0,
    ensures
        final(password)@ == old(password)@.push(final(password)@[old(password)@.len() as int]),
        class@.contains(final(password)@[old(password)@.len() as int]),
        final(pool)@ == old(pool)@ + class@,
{
    pool.extend_from_slice(class.as_slice());
    if let Some(c) = choose_byte(class.as_slice()) {
        password.push(c);
    }
}

/// The bytes of a random password for `opts`, or why there can be none.
pub fn password_bytes(opts: &GenPassOpts) -> (r: Result<Vec<u8>, GenPassError>)
    ensures
        match r {
            Ok(p) => genpass_error(*opts) is None && fits(*opts, p@),
            Err(e) => genpass_error(*opts) == Some(e),
        },
{
    let mut classes: u8 = 0;
    if opts.uppercase {
        classes += 1;
    }
    if opts.lowercase {
        classes += 1;
    }
    if opts.number {
        classes += 1;
    }
    if opts.symbol {
        classes += 1;
    }
    if classes == 0 && opts.length > 0 {
        return Err(GenPassError::NoCharacterClass);
    }
    if opts.length < classes {
        return Err(GenPassError::TooShort);
    }
    Ok(draw_password(opts))
}

/// The bytes of a random password for options that some password meets.
pub fn draw_password(opts: &GenPassOpts) -> (p: Vec<u8>)
    requires
        genpass_error(*opts) is None,
    ensures
        fits(*opts, p@),
{
    let mut password: Vec<u8> = Vec::new();
    let mut pool: Vec<u8> = Vec::new();
    let ghost mut at_upper: int = 0;
    let ghost mut at_lower: int = 0;
    let ghost mut at_digit: int = 0;
    let ghost mut at_symbol: int = 0;
    if opts.uppercase {
        proof {
            at_upper = password@.len() as int;
        }
        take_from_class(upper_class(), &mut password, &mut pool);
    }
    if opts.lowercase {
        proof {
            at_lower = password@.len() as int;
        }
        take_from_class(lower_class(), &mut password, &mut pool);
    }
    if opts.number {
        proof {
            at_digit = password@.len() as int;
        }
        take_from_class(digit_class(), &mut password, &mut pool);
    }
    if opts.symbol {
        proof {
            at_symbol = password@.len() as int;
        }
        take_from_class(symbol_class(), &mut password, &mut pool);
    }
    while password.len() < opts.length as usize
        invariant
            password@.len() <= opts.length,
            pool@.len() > 0 || password@.len() == opts.length,
            forall|j: int| 0 <= j < pool@.len() ==> allowed(*opts, #[trigger] pool@[j]),
            forall|j: int| 0 <= j < password@.len() ==> allowed(*opts, #[trigger] password@[j]),
            opts.uppercase ==> 0 <= at_upper < password@.len() && upper_letters().contains(
                password@[at_upper],
            ),
            opts.lowercase ==> 0 <= at_lower < password@.len() && lower_letters().contains(
                password@[at_lower],
            ),
            opts.number ==> 0 <= at_digit < password@.len() && digits().contains(
                password@[at_digit],
            ),
            opts.symbol ==> 0 <= at_symbol < password@.len() && symbols().contains(
                password@[at_symbol],
            ),
        decreases opts.length - password@.len(),
    {
        if let Some(c) = choose_byte(pool.as_slice()) {
            password.push(c);
        }
    }
    let ghost before = password@;
    shuffle_bytes(&mut password);
    proof {
        lemma_rearranged_fits(*opts, before, password@);
    }
    password
}

/// A random password for `opts`, or why there can be none.
pub fn process_genpass(opts: &GenPassOpts) -> (r: Result<String, GenPassError>)
    ensures
        match r {
            Ok(s) => genpass_error(*opts) is None && exists|p: Seq<u8>|
                fits(*opts, p) && s@ == ascii_text(p),
            Err(e) => genpass_error(*opts) == Some(e),
        },
{
    match password_bytes(opts) {
        Ok(p) => {
            proof {
                assert forall|i: int| 0 <= i < p@.len() implies p@[i] < 128 by {
                    lemma_allowed_is_ascii(*opts, p@[i]);
                }
            }
            let ghost bytes = p@;
            let s = ascii_string(p);
            assert(fits(*opts, bytes) && s@ == ascii_text(bytes));
            Ok(s)
        },
        Err(e) => Err(e),
    }
}

} // verus!
