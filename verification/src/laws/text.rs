//! Numbers in decimal, and texts in texts.

use vstd::prelude::*;

verus! {

/// The number that decimal digits stand for.
pub open spec fn number(digits: Seq<char>) -> int
    decreases digits.len(),
{
    if digits.len() == 0 {
        0
    } else {
        10 * number(digits.drop_last()) + (digits.last() as int - '0' as int)
    }
}

/// The decimal form of a number consists of digits, stands for the number, and has no
/// leading zero.
pub proof fn a_decimal_stands_for_its_number(n: nat)
    ensures
        crate::text::decimal(n).len() > 0,
        forall|i: int|
            0 <= i < crate::text::decimal(n).len() ==> '0' as int <= (
            #[trigger] crate::text::decimal(n)[i]) as int <= '9' as int,
        number(crate::text::decimal(n)) == n,
        n > 0 ==> crate::text::decimal(n)[0] != '0',
        crate::text::decimal(0) == seq!['0'],
    decreases n,
{
    let digits = crate::text::decimal(n);
    if n >= 10 {
        a_decimal_stands_for_its_number(n / 10);
        assert(digits.drop_last() =~= crate::text::decimal(n / 10));
        assert(digits.last() as int - '0' as int == n % 10);
        assert(digits[0] == crate::text::decimal(n / 10)[0]);
    } else {
        assert(digits.drop_last() =~= Seq::empty());
        assert(number(digits.drop_last()) == 0);
        assert(digits.last() as int - '0' as int == n);
    }
}

/// Digits without a leading zero are the decimal form of the number they stand for.
pub proof fn a_number_has_one_decimal(digits: Seq<char>)
    requires
        digits.len() > 0,
        forall|i: int|
            0 <= i < digits.len() ==> '0' as int <= (#[trigger] digits[i]) as int <= '9' as int,
        digits.len() > 1 ==> digits[0] != '0',
    ensures
        number(digits) >= 0,
        digits == crate::text::decimal(number(digits) as nat),
        digits[0] != '0' ==> number(digits) > 0,
    decreases digits.len(),
{
    let before = digits.drop_last();
    let last = digits.last() as int - '0' as int;
    assert(digits.last() == digits[digits.len() - 1]);
    assert(crate::text::digit(last) == digits.last());
    if digits.len() == 1 {
        assert(before =~= Seq::empty());
        assert(number(before) == 0);
        assert(digits =~= seq![crate::text::digit(last)]);
    } else {
        assert forall|i: int| 0 <= i < before.len() implies '0' as int <= (
        #[trigger] before[i]) as int <= '9' as int by {
            assert(before[i] == digits[i]);
        }
        assert(before[0] == digits[0]);
        a_number_has_one_decimal(before);
        let n = number(digits) as nat;
        assert(n / 10 == number(before) && n % 10 == last);
        assert(digits =~= before.push(digits.last()));
    }
}

/// What is written of a number reads back as that number.
pub proof fn a_written_number_reads_back(n: u64, written: String)
    requires
        call_ensures(crate::text::decimal_text, (n,), written),
    ensures
        number(written@) == n,
        written@.len() > 0,
        forall|i: int|
            0 <= i < written@.len() ==> '0' as int <= (#[trigger] written@[i]) as int <= '9' as int,
        written@.len() > 1 ==> written@[0] != '0',
{
    a_decimal_stands_for_its_number(n as nat);
}

/// A text is found in another exactly where the other is made of something, the text, and
/// something.
pub proof fn a_text_is_found_where_it_stands(text: &str, pattern: &str, found: bool)
    requires
        call_ensures(crate::text::contains, (text, pattern), found),
    ensures
        found <==> exists|before: Seq<char>, behind: Seq<char>|
            #[trigger] (before + pattern@ + behind) == text@,
{
    text_in_text(text@, pattern@);
}

/// A text occurs in another exactly where the other is made of something, the text, and
/// something.
pub proof fn text_in_text(text: Seq<char>, pattern: Seq<char>)
    ensures
        crate::text::occurs(text, pattern) <==> exists|before: Seq<char>, behind: Seq<char>|
            #[trigger] (before + pattern + behind) == text,
{
    if crate::text::occurs(text, pattern) {
        let i = choose|i: int| #[trigger] crate::text::occurs_at(text, pattern, i);
        let before = text.take(i);
        let behind = text.skip(i + pattern.len());
        assert(text.subrange(i, i + pattern.len()) == pattern);
        assert(before + pattern + behind =~= text);
    }
    if exists|before: Seq<char>, behind: Seq<char>| #[trigger] (before + pattern + behind) == text {
        let (before, behind) = choose|before: Seq<char>, behind: Seq<char>|
            #[trigger] (before + pattern + behind) == text;
        let whole = before + pattern + behind;
        let end = before.len() as int + pattern.len() as int;
        assert(whole.subrange(before.len() as int, end) =~= pattern);
        assert(crate::text::occurs_at(text, pattern, before.len() as int));
    }
}

/// Texts one after the other: of none it is empty, of one it is that one, and of two lists
/// it is that of the first and then that of the second.
pub proof fn joined_texts_follow_each_other(first: Seq<Seq<char>>, second: Seq<Seq<char>>)
    ensures
        crate::text::joined(first + second) == crate::text::joined(first) + crate::text::joined(
            second,
        ),
        first.len() == 0 ==> crate::text::joined(first) == Seq::<char>::empty(),
        first.len() == 1 ==> crate::text::joined(first) == first[0],
    decreases second.len(),
{
    if first.len() == 1 {
        assert(first.drop_last() =~= Seq::empty());
        assert(crate::text::joined(first.drop_last()) =~= Seq::empty());
        assert(crate::text::joined(first) =~= first[0]);
    }
    if second.len() == 0 {
        assert(first + second =~= first);
        assert(crate::text::joined(first) + crate::text::joined(second) =~= crate::text::joined(
            first,
        ));
    } else {
        joined_texts_follow_each_other(first, second.drop_last());
        assert((first + second).drop_last() =~= first + second.drop_last());
        assert((first + second).last() == second.last());
        assert(crate::text::joined(first) + crate::text::joined(second) =~= crate::text::joined(
            first,
        ) + crate::text::joined(second.drop_last()) + second.last());
    }
}

} // verus!
