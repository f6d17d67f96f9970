//! Text: command-line words, numerals, slices and searches.

use vstd::prelude::*;
use vstd::utf8::{decode_utf8, encode_utf8, is_ascii_chars, is_char_boundary};

verus! {

/// The contents of a list of command-line words.
pub open spec fn words(list: Seq<String>) -> Seq<Seq<char>> {
    list.map_values(|word: String| word@)
}

/// The list with one more word behind it is the words with that word behind them.
pub proof fn lemma_words_push(list: Seq<String>, word: String)
    ensures
        words(list.push(word)) == words(list).push(word@),
{
    assert(words(list.push(word)) =~= words(list).push(word@));
}

/// Whether two texts hold the same characters.
pub fn same_text(a: &str, b: &str) -> (same: bool)
    ensures
        same == (a@ == b@),
{
    a.to_owned() == b.to_owned()
}

/// Puts one word behind a list.
pub fn push_word(list: &mut Vec<String>, word: &str)
    ensures
        words(final(list)@) == words(old(list)@).push(word@),
{
    let owned = word.to_owned();
    proof {
        lemma_words_push(list@, owned);
    }
    list.push(owned);
}

/// Puts copies of all words of `more` behind a list, in their order.
pub fn push_words(list: &mut Vec<String>, more: &[String])
    ensures
        words(final(list)@) == words(old(list)@) + words(more@),
{
    let ghost before = words(list@);
    let mut i: usize = 0;
    assert(words(more@).take(0) =~= Seq::<Seq<char>>::empty());
    assert(before + Seq::<Seq<char>>::empty() =~= before);
    while i < more.len()
        invariant
            i <= more.len(),
            words(list@) == before + words(more@).take(i as int),
        decreases more.len() - i,
    {
        push_word(list, more[i].as_str());
        assert(words(more@).take(i + 1) =~= words(more@).take(i as int).push(more@[i as int]@));
        assert((before + words(more@).take(i as int)).push(more@[i as int]@) =~= before + words(
            more@,
        ).take(i + 1));
        i = i + 1;
    }
    assert(words(more@).take(i as int) =~= words(more@));
}

/// A copy of a list of words.
pub fn copy_words(list: &[String]) -> (copy: Vec<String>)
    ensures
        words(copy@) == words(list@),
{
    let mut copy: Vec<String> = Vec::new();
    push_words(&mut copy, list);
    assert(words(Seq::<String>::empty()) + words(list@) =~= words(list@));
    copy
}

/// The digit that stands for `d`: `0` to `9`, then `a` to `f`.
pub open spec fn digit(d: nat) -> char {
    if d < 10 {
        (('0' as u32) + d) as char
    } else {
        (('a' as u32) + d - 10) as char
    }
}

/// The numeral of `n` to `base`, most significant digit first and no leading zero.
pub open spec fn numeral(n: nat, base: nat) -> Seq<char>
    decreases n,
{
    if base < 2 || n < base {
        seq![digit(n)]
    } else {
        proof {
            vstd::arithmetic::div_mod::lemma_div_decreases(n as int, base as int);
        }
        numeral(n / base, base).push(digit(n % base))
    }
}

/// The number that a digit stands for.
pub open spec fn digit_value(c: char) -> nat {
    if 'a' <= c {
        (c as nat - 'a' as nat + 10) as nat
    } else {
        (c as nat - '0' as nat) as nat
    }
}

/// The number that a numeral stands for.
pub open spec fn numeral_value(s: Seq<char>, base: nat) -> nat
    decreases s.len(),
{
    if s.len() == 0 {
        0
    } else {
        numeral_value(s.drop_last(), base) * base + digit_value(s.last())
    }
}

/// Reading a numeral gives back the number that was written, in decimal as in hexadecimal.
pub proof fn law_numeral_reads_back(n: nat, base: nat)
    requires
        2 <= base <= 16,
    ensures
        numeral_value(numeral(n, base), base) == n,
    decreases n,
{
    if n < base {
        let s = seq![digit(n)];
        assert(numeral(n, base) == s);
        assert(s.drop_last() =~= Seq::<char>::empty());
        assert(numeral_value(s.drop_last(), base) * base == 0) by {
            vstd::arithmetic::mul::lemma_mul_basics(base as int);
        }
        assert(digit_value(digit(n)) == n);
    } else {
        vstd::arithmetic::div_mod::lemma_fundamental_div_mod(n as int, base as int);
        vstd::arithmetic::div_mod::lemma_div_decreases(n as int, base as int);
        law_numeral_reads_back(n / base, base);
        let high = numeral(n / base, base);
        assert(numeral(n, base).drop_last() =~= high);
        assert(numeral(n, base).last() == digit(n % base));
        assert(digit_value(digit(n % base)) == n % base);
        assert(numeral_value(high, base) == n / base);
        assert((n / base) * base == base * (n / base)) by (nonlinear_arith);
    }
}

fn digit_text(d: u64) -> (text: &'static str)
    requires
        d < 16,
    ensures
        text@ == seq![digit(d as nat)],
{
    proof {
        reveal_strlit("0");
        reveal_strlit("1");
        reveal_strlit("2");
        reveal_strlit("3");
        reveal_strlit("4");
        reveal_strlit("5");
        reveal_strlit("6");
        reveal_strlit("7");
        reveal_strlit("8");
        reveal_strlit("9");
        reveal_strlit("a");
        reveal_strlit("b");
        reveal_strlit("c");
        reveal_strlit("d");
        reveal_strlit("e");
        reveal_strlit("f");
    }
    if d == 0 {
        "0"
    } else if d == 1 {
        "1"
    } else if d == 2 {
        "2"
    } else if d == 3 {
        "3"
    } else if d == 4 {
        "4"
    } else if d == 5 {
        "5"
    } else if d == 6 {
        "6"
    } else if d == 7 {
        "7"
    } else if d == 8 {
        "8"
    } else if d == 9 {
        "9"
    } else if d == 10 {
        "a"
    } else if d == 11 {
        "b"
    } else if d == 12 {
        "c"
    } else if d == 13 {
        "d"
    } else if d == 14 {
        "e"
    } else {
        "f"
    }
}

fn write_numeral(n: u64, base: u64) -> (text: String)
    requires
        2 <= base <= 16,
    ensures
        text@ == numeral(n as nat, base as nat),
    decreases n,
{
    if n < base {
        digit_text(n).to_owned()
    } else {
        proof {
            vstd::arithmetic::div_mod::lemma_div_decreases(n as int, base as int);
        }
        let mut text = write_numeral(n / base, base);
        let low = digit_text(n % base);
        text.append(low);
        text
    }
}

/// The decimal numeral of a number.
pub open spec fn decimal(n: nat) -> Seq<char> {
    numeral(n, 10)
}

/// A decimal numeral begins with one of the ten digits.
pub proof fn lemma_decimal_starts_with_digit(n: nat)
    ensures
        decimal(n).len() > 0,
        '0' <= decimal(n)[0] <= '9',
    decreases n,
{
    if n >= 10 {
        lemma_decimal_starts_with_digit(n / 10);
        assert(numeral(n, 10)[0] == numeral(n / 10, 10)[0]);
    }
}

/// The decimal numeral of an integer, with a minus sign in front of a negative one.
pub open spec fn signed_decimal(n: int) -> Seq<char> {
    if n < 0 {
        "-"@ + decimal((-n) as nat)
    } else {
        decimal(n as nat)
    }
}

/// `n` in decimal.
pub fn to_decimal(n: u64) -> (text: String)
    ensures
        text@ == decimal(n as nat),
{
    write_numeral(n, 10)
}

/// `n` in decimal, with its sign.
pub fn to_signed_decimal(n: i32) -> (text: String)
    ensures
        text@ == signed_decimal(n as int),
{
    let wide: i64 = n as i64;
    if wide < 0 {
        let mut text = "-".to_owned();
        text.append(to_decimal((-wide) as u64).as_str());
        text
    } else {
        to_decimal(wide as u64)
    }
}

/// A quantity as JSON-RPC writes it: `0x`, then lower-case hexadecimal with no leading zero.
pub open spec fn hex_quantity(n: nat) -> Seq<char> {
    "0x"@ + numeral(n, 16)
}

/// `n` as a JSON-RPC quantity.
pub fn to_hex_quantity(n: u64) -> (text: String)
    ensures
        text@ == hex_quantity(n as nat),
{
    let mut text = "0x".to_owned();
    text.append(write_numeral(n, 16).as_str());
    text
}

/// How many bytes of a commit hash stand for the whole.
pub const SHORT_COMMIT_BYTES: usize = 8;

/// Whether a commit hash is long enough to be cut to its short form, between two characters.
pub open spec fn has_short_form(commit: Seq<char>) -> bool {
    is_char_boundary(encode_utf8(commit), SHORT_COMMIT_BYTES as int)
}

/// The first eight bytes of a commit hash.
pub open spec fn short_form(commit: Seq<char>) -> Seq<char> {
    decode_utf8(encode_utf8(commit).subrange(0, SHORT_COMMIT_BYTES as int))
}

/// A commit hash of at least eight ASCII characters has a short form: its first eight characters.
pub proof fn law_short_form_of_ascii(commit: Seq<char>)
    requires
        is_ascii_chars(commit),
        commit.len() >= 8,
    ensures
        has_short_form(commit),
        short_form(commit) == commit.take(8),
{
    broadcast use vstd::utf8::encode_utf8_valid_utf8, vstd::utf8::encode_utf8_decode_utf8;

    let bytes = encode_utf8(commit);
    vstd::utf8::is_ascii_chars_encode_utf8(commit);
    let short = commit.take(8);
    assert(is_ascii_chars(short));
    vstd::utf8::is_ascii_chars_encode_utf8(short);
    assert(encode_utf8(short) =~= bytes.subrange(0, 8));
    if commit.len() > 8 {
        vstd::utf8::is_char_boundary_iff_not_is_continuation_byte(bytes, 8);
    } else {
        vstd::utf8::is_char_boundary_start_end_of_seq(bytes);
    }
}

/// The short form of a commit hash.
pub fn shorten(commit: &str) -> (short: &str)
    requires
        has_short_form(commit@),
    ensures
        short@ == short_form(commit@),
{
    broadcast use vstd::utf8::encode_utf8_decode_utf8;

    commit.split_at(SHORT_COMMIT_BYTES).0
}

/// The characters of a text.
pub fn characters(text: &str) -> (list: Vec<char>)
    ensures
        list@ == text@,
{
    let mut list: Vec<char> = Vec::new();
    for c in iter: text.chars()
        invariant
            list@ == text@.take(iter.index() as int),
            iter.seq() == text@,
    {
        list.push(c);
    }
    list
}

/// Whether `needle` stands in `text` from position `at` on.
pub open spec fn occurs_at(text: Seq<char>, needle: Seq<char>, at: int) -> bool {
    0 <= at && at + needle.len() <= text.len() && text.subrange(at, at + needle.len()) == needle
}

/// Whether `needle` stands anywhere in `text`.
pub open spec fn occurs(text: Seq<char>, needle: Seq<char>) -> bool {
    exists|at: int| occurs_at(text, needle, at)
}

/// Whether `needle` stands anywhere in `text`.
pub fn contains(text: &str, needle: &str) -> (found: bool)
    ensures
        found == occurs(text@, needle@),
{
    let all = characters(text);
    let part = characters(needle);
    if part.len() > all.len() {
        return false;
    }
    let mut at: usize = 0;
    while at <= all.len() - part.len()
        invariant
            all@ == text@,
            part@ == needle@,
            part.len() <= all.len(),
            at <= all.len() - part.len() + 1,
            forall|k: int| 0 <= k < at ==> !occurs_at(text@, needle@, k),
        decreases all.len() - at,
    {
        let mut n: usize = 0;
        while n < part.len() && all[at + n] == part[n]
            invariant
                all@ == text@,
                part@ == needle@,
                n <= part.len(),
                at + part.len() <= all.len(),
                forall|k: int| 0 <= k < n ==> text@[at + k] == needle@[k],
            decreases part.len() - n,
        {
            n = n + 1;
        }
        if n == part.len() {
            assert(text@.subrange(at as int, at + needle@.len()) =~= needle@);
            assert(occurs_at(text@, needle@, at as int));
            return true;
        }
        assert(!occurs_at(text@, needle@, at as int)) by {
            if occurs_at(text@, needle@, at as int) {
                assert(text@.subrange(at as int, at + needle@.len())[n as int] == text@[at + n]);
            }
        }
        at = at + 1;
    }
    false
}

/// A list of words is read word by word: as many as there are, each for itself.
pub proof fn law_words_are_read_one_by_one(list: Seq<String>)
    ensures
        words(list).len() == list.len(),
        forall|i: int| 0 <= i < list.len() ==> #[trigger] words(list)[i] == list[i]@,
{
}

/// A word that is put behind a list stands there, and all others stay where they were.
pub proof fn law_pushed_word_stands_last(list: &mut Vec<String>, word: &str)
    requires
        call_ensures(push_word, (list, word), ()),
    ensures
        final(list)@.len() == old(list)@.len() + 1,
        final(list)@[old(list)@.len() as int]@ == word@,
        forall|i: int|
            0 <= i < old(list)@.len() ==> #[trigger] final(list)@[i]@ == old(list)@[i]@,
{
    let (before, after) = (old(list)@, final(list)@);
    assert(words(after).len() == after.len() && words(before).len() == before.len());
    assert(words(after)[before.len() as int] == word@);
    assert forall|i: int| 0 <= i < before.len() implies #[trigger] after[i]@ == before[i]@ by {
        assert(words(after)[i] == words(before)[i]);
    }
}

/// Words that are put behind a list stand there in their order, and all others stay where they
/// were.
pub proof fn law_pushed_words_stand_last(list: &mut Vec<String>, more: &[String])
    requires
        call_ensures(push_words, (list, more), ()),
    ensures
        final(list)@.len() == old(list)@.len() + more@.len(),
        forall|i: int|
            0 <= i < old(list)@.len() ==> #[trigger] final(list)@[i]@ == old(list)@[i]@,
        forall|i: int|
            0 <= i < more@.len() ==> final(list)@[old(list)@.len() + i]@ == (
            #[trigger] more@[i])@,
{
    let (before, after) = (old(list)@, final(list)@);
    assert(words(after).len() == after.len() && words(before).len() == before.len());
    assert(words(more@).len() == more@.len());
    assert forall|i: int| 0 <= i < before.len() implies #[trigger] after[i]@ == before[i]@ by {
        assert(words(after)[i] == words(before)[i]);
    }
    assert forall|i: int| 0 <= i < more@.len() implies after[before.len() + i]@ == (
    #[trigger] more@[i])@ by {
        assert(words(after)[before.len() + i] == words(more@)[i]);
    }
}

/// Each of the sixteen digits, from the least to the greatest.
pub proof fn law_digits_in_order()
    ensures
        forall|d: nat| d < 10 ==> #[trigger] digit(d) as nat == 48 + d,
        forall|d: nat| 10 <= d < 16 ==> #[trigger] digit(d) as nat == 97 + d - 10,
        forall|d: nat| d < 16 ==> digit_value(#[trigger] digit(d)) == d,
        digit(0) == '0' && digit(9) == '9' && digit(10) == 'a' && digit(15) == 'f',
{
}

/// Whether a text is the one usual way to write a number to a base: digits alone, no zero before
/// others, and the value of the number.
pub open spec fn reads_as(text: Seq<char>, base: nat, n: nat) -> bool {
    &&& text.len() > 0
    &&& forall|i: int|
        0 <= i < text.len() ==> {
            ||| '0' <= #[trigger] text[i] <= '9'
            ||| base == 16 && 'a' <= text[i] <= 'f'
        }
    &&& text.len() > 1 ==> text[0] != '0'
    &&& numeral_value(text, base) == n
}

proof fn lemma_numeral_reads_as(n: nat, base: nat)
    requires
        base == 10 || base == 16,
    ensures
        reads_as(numeral(n, base), base, n),
        n > 0 ==> numeral(n, base)[0] != '0',
    decreases n,
{
    law_numeral_reads_back(n, base);
    let text = numeral(n, base);
    if n >= base {
        vstd::arithmetic::div_mod::lemma_div_decreases(n as int, base as int);
        lemma_numeral_reads_as(n / base, base);
        let high = numeral(n / base, base);
        assert(n / base > 0) by (nonlinear_arith)
            requires
                n >= base,
                base > 0,
        ;
        assert(n % base < base);
        assert forall|i: int| 0 <= i < text.len() implies '0' <= #[trigger] text[i] <= '9' || base
            == 16 && 'a' <= text[i] <= 'f' by {
            if i < high.len() {
                assert(text[i] == high[i]);
            } else {
                assert(text[i] == digit(n % base));
            }
        }
        assert(text[0] == high[0]);
    }
}

/// A number in decimal is written in the one usual way, and reads as that number.
pub proof fn law_decimal_reads_as_number(n: u64, text: String)
    requires
        call_ensures(to_decimal, (n,), text),
    ensures
        reads_as(text@, 10, n as nat),
{
    lemma_numeral_reads_as(n as nat, 10);
}

/// The decimal numeral of a number reads as that number, and two numbers share none.
pub proof fn law_decimal_is_faithful(n: nat, m: nat)
    ensures
        reads_as(decimal(n), 10, n),
        decimal(n) == decimal(m) <==> n == m,
{
    lemma_numeral_reads_as(n, 10);
    lemma_numeral_reads_as(m, 10);
}

/// A negative number is written as a minus sign and what stands for its opposite; any other as in
/// [`to_decimal`].
pub proof fn law_signed_decimal_carries_sign(n: i32, text: String)
    requires
        call_ensures(to_signed_decimal, (n,), text),
    ensures
        n >= 0 ==> reads_as(text@, 10, n as nat),
        n < 0 ==> text@.len() > 1 && text@[0] == '-' && reads_as(text@.skip(1), 10, (-n) as nat),
{
    if n < 0 {
        reveal_strlit("-");
        lemma_numeral_reads_as((-n) as nat, 10);
        assert(text@.skip(1) =~= decimal((-n) as nat));
    } else {
        lemma_numeral_reads_as(n as nat, 10);
    }
}

/// A quantity is written as `0x` and the number in lower-case hexadecimal.
pub proof fn law_hex_quantity_reads_as_number(n: u64, text: String)
    requires
        call_ensures(to_hex_quantity, (n,), text),
    ensures
        text@.len() > 2 && text@[0] == '0' && text@[1] == 'x',
        reads_as(text@.skip(2), 16, n as nat),
{
    law_hex_quantity_is_faithful(n as nat);
}

/// A quantity begins with `0x`, and the rest reads as the number.
pub proof fn law_hex_quantity_is_faithful(n: nat)
    ensures
        hex_quantity(n).len() > 2 && hex_quantity(n)[0] == '0' && hex_quantity(n)[1] == 'x',
        reads_as(hex_quantity(n).skip(2), 16, n),
{
    reveal_strlit("0x");
    lemma_numeral_reads_as(n, 16);
    assert(hex_quantity(n).skip(2) =~= numeral(n, 16));
}

/// The short form of a commit is what its first eight bytes spell, no more and no less.
pub proof fn law_short_form_is_first_eight_bytes(commit: &str, short: &str)
    requires
        has_short_form(commit@),
        call_ensures(shorten, (commit,), short),
    ensures
        encode_utf8(commit@).len() >= 8,
        encode_utf8(short@) == encode_utf8(commit@).subrange(0, 8),
{
    law_short_form_spells_eight_bytes(commit@);
}

/// The short form of a commit is what its first eight bytes spell.
pub proof fn law_short_form_spells_eight_bytes(commit: Seq<char>)
    requires
        has_short_form(commit),
    ensures
        encode_utf8(commit).len() >= 8,
        encode_utf8(short_form(commit)) == encode_utf8(commit).subrange(0, 8),
{
    broadcast use vstd::utf8::encode_utf8_valid_utf8, vstd::utf8::encode_utf8_decode_utf8;

    let bytes = encode_utf8(commit);
    vstd::utf8::valid_utf8_split(bytes, 8);
    vstd::utf8::decode_utf8_encode_utf8(bytes.subrange(0, 8));
}

/// A text is found in another exactly when the other is made of it and of what stands before and
/// behind.
pub proof fn law_contains_means_in_between(text: &str, needle: &str, found: bool)
    requires
        call_ensures(contains, (text, needle), found),
    ensures
        found <==> exists|before: Seq<char>, behind: Seq<char>|
            text@ == #[trigger] (before + needle@ + behind),
{
    if found {
        let at = choose|at: int| occurs_at(text@, needle@, at);
        let (before, behind) = (text@.take(at), text@.skip(at + needle@.len()));
        assert(text@ =~= before + needle@ + behind);
    }
    if exists|before: Seq<char>, behind: Seq<char>|
        text@ == #[trigger] (before + needle@ + behind) {
        let (before, behind) = choose|before: Seq<char>, behind: Seq<char>|
            text@ == #[trigger] (before + needle@ + behind);
        let at = before.len() as int;
        assert(text@.subrange(at, at + needle@.len()) =~= needle@);
        assert(occurs_at(text@, needle@, at));
    }
}

/// Every commit that can be cut between two characters behind its eighth byte has a short form.
pub proof fn law_cut_behind_eight_bytes_suffices(commit: Seq<char>)
    ensures
        has_short_form(commit) <==> is_char_boundary(encode_utf8(commit), 8),
{
}

/// A digit behind a numeral makes the number that stood there worth the base more, and adds its own
/// value.
pub proof fn law_numeral_value_is_positional(high: Seq<char>, c: char, base: nat)
    ensures
        numeral_value(seq![], base) == 0,
        numeral_value(high.push(c), base) == numeral_value(high, base) * base + digit_value(c),
        '0' <= c <= '9' ==> digit_value(c) == c as nat - 48,
        'a' <= c <= 'f' ==> digit_value(c) == c as nat - 97 + 10,
{
    assert(high.push(c).drop_last() =~= high);
}

/// Two texts are the same exactly when they hold the same characters, and a copy of a list holds the
/// same words.
pub proof fn law_same_text_and_copy(
    a: &str,
    b: &str,
    same: bool,
    list: &[String],
    copy: Vec<String>,
    text: &str,
    all: Vec<char>,
)
    requires
        call_ensures(same_text, (a, b), same),
        call_ensures(copy_words, (list,), copy),
        call_ensures(characters, (text,), all),
    ensures
        same <==> a@ == b@,
        copy@.len() == list@.len(),
        forall|i: int| 0 <= i < list@.len() ==> (#[trigger] copy@[i])@ == list@[i]@,
        all@ == text@,
{
    assert(words(copy@).len() == copy@.len() && words(list@).len() == list@.len());
    assert forall|i: int| 0 <= i < list@.len() implies (#[trigger] copy@[i])@ == list@[i]@ by {
        assert(words(copy@)[i] == words(list@)[i]);
    }
}

} // verus!
