use vstd::prelude::*;
use vstd::string::StrSliceExecFns;
use scraper::{Html, Selector};

verus! {

/// Why quote extraction failed: no element matched the quote selector, or
/// the matched text did not read as a decimal number.
#[derive(Clone, Copy, Debug, PartialEq, Eq, Structural)]
pub enum ExtractionError {
    NoMatch,
    NumericFormat,
}

/// The concatenated text content of the first element carrying the fixed
/// quote class (`kabuka`), in document order; `None` when no element in the
/// document matches. A function of the document text alone.
pub uninterp spec fn quote_text_of(document: Seq<char>) -> Option<Seq<char>>;

/// Relies on scraper's `Html::parse_document`, `Selector::parse` and
/// `Html::select`: `select` yields the matching elements in document order,
/// and `ElementRef::text` walks the element's text nodes in order. The
/// selector `.kabuka` is a fixed valid selector, so its parse cannot fail.
#[verifier::external_body]
fn select_quote_text(document: &str) -> (r: Option<String>)
    ensures
        match r {
            Some(t) => quote_text_of(document@) == Some(t@),
            None => quote_text_of(document@) is None,
        },
{
    let html = Html::parse_document(document);
    let selector = Selector::parse(".kabuka").unwrap();
    for element in html.select(&selector) {
        return Some(element.text().collect::<String>());
    }
    None
}

/// Characters that survive cleaning of the raw quote text: everything but
/// the currency glyph and the grouping separator.
pub open spec fn kept_char(c: char) -> bool {
    c != '円' && c != ','
}

/// The quote text after stripping the currency glyph and grouping commas.
pub open spec fn cleaned_text(t: Seq<char>) -> Seq<char> {
    t.filter(|c: char| kept_char(c))
}

pub open spec fn is_digit_char(c: char) -> bool {
    '0' as u32 <= c as u32 <= '9' as u32
}

pub open spec fn digit_val(c: char) -> int {
    c as u32 - '0' as u32
}

pub open spec fn all_digits(s: Seq<char>) -> bool {
    forall|i: int| 0 <= i < s.len() ==> is_digit_char(#[trigger] s[i])
}

/// The number written by a sequence of decimal digits (most significant
/// first); the empty sequence writes zero.
pub open spec fn digits_val(s: Seq<char>) -> int
    decreases s.len(),
{
    if s.len() == 0 {
        0
    } else {
        10 * digits_val(s.drop_last()) + digit_val(s.last())
    }
}

/// The position of the first `'.'` in `s`, or `s.len()` when there is none.
pub open spec fn dot_split_at(s: Seq<char>) -> int {
    match s.index_of_first('.') {
        Some(i) => i,
        None => s.len() as int,
    }
}

/// The digits before the first `'.'` (or the whole string without one).
pub open spec fn int_digits(s: Seq<char>) -> Seq<char> {
    s.take(dot_split_at(s))
}

/// The digits after the first `'.'`; empty when there is no `'.'`.
pub open spec fn frac_digits(s: Seq<char>) -> Seq<char> {
    if dot_split_at(s) < s.len() {
        s.skip(dot_split_at(s) + 1)
    } else {
        Seq::empty()
    }
}

/// A non-negative decimal number: digits around at most one `'.'`, with at
/// least one digit in all.
pub open spec fn is_decimal_text(s: Seq<char>) -> bool {
    &&& all_digits(int_digits(s))
    &&& all_digits(frac_digits(s))
    &&& int_digits(s).len() + frac_digits(s).len() >= 1
}

/// The decimal's value rounded to the nearest integer, halves up: the
/// fractional part is at least one half exactly when its first digit is
/// five or more.
pub open spec fn rounded_val(s: Seq<char>) -> int {
    digits_val(int_digits(s)) + if frac_digits(s).len() > 0 && digit_val(frac_digits(s)[0]) >= 5 {
        1int
    } else {
        0int
    }
}

/// The quote encoded by a raw element text: its cleaned form must read as a
/// decimal number whose rounded value fits an `i32`.
pub open spec fn amount_of_text(t: Seq<char>) -> Option<int> {
    let s = cleaned_text(t);
    if is_decimal_text(s) && rounded_val(s) <= i32::MAX {
        Some(rounded_val(s))
    } else {
        None
    }
}

/// What extraction returns on a whole document.
pub open spec fn extract_spec(document: Seq<char>) -> Result<int, ExtractionError> {
    match quote_text_of(document) {
        Some(t) => match amount_of_text(t) {
            Some(v) => Ok(v),
            None => Err(ExtractionError::NumericFormat),
        },
        None => Err(ExtractionError::NoMatch),
    }
}

proof fn lemma_cleaned_push(t: Seq<char>, c: char)
    ensures
        cleaned_text(t.push(c)) == if kept_char(c) {
            cleaned_text(t).push(c)
        } else {
            cleaned_text(t)
        },
{
    reveal_with_fuel(Seq::<_>::filter, 2);
    assert(t.push(c).drop_last() =~= t);
    assert(t.push(c).last() == c);
}

proof fn lemma_cleaned_all_kept(s: Seq<char>)
    requires
        forall|i: int| 0 <= i < s.len() ==> kept_char(#[trigger] s[i]),
    ensures
        cleaned_text(s) == s,
    decreases s.len(),
{
    reveal_with_fuel(Seq::<_>::filter, 2);
    if s.len() == 0 {
        assert(cleaned_text(s) =~= s);
    } else {
        assert(forall|i: int|
            0 <= i < s.drop_last().len() ==> #[trigger] s.drop_last()[i] == s[i]);
        lemma_cleaned_all_kept(s.drop_last());
        assert(kept_char(s.last()));
        assert(cleaned_text(s) =~= s.drop_last().push(s.last()));
        assert(s.drop_last().push(s.last()) =~= s);
    }
}

proof fn lemma_digits_val_nonneg(s: Seq<char>)
    requires
        all_digits(s),
    ensures
        digits_val(s) >= 0,
    decreases s.len(),
{
    if s.len() > 0 {
        assert(all_digits(s.drop_last())) by {
            assert(forall|i: int|
                0 <= i < s.drop_last().len() ==> #[trigger] s.drop_last()[i] == s[i]);
        }
        lemma_digits_val_nonneg(s.drop_last());
    }
}

proof fn lemma_digits_val_prefix(s: Seq<char>, j: int)
    requires
        all_digits(s),
        0 <= j <= s.len(),
    ensures
        digits_val(s.take(j)) <= digits_val(s),
    decreases s.len() - j,
{
    if j == s.len() {
        assert(s.take(j) =~= s);
    } else {
        assert(s.take(j + 1).drop_last() =~= s.take(j));
        assert(s.take(j + 1).last() == s[j]);
        assert(all_digits(s.take(j))) by {
            assert(forall|i: int| 0 <= i < j ==> #[trigger] s.take(j)[i] == s[i]);
        }
        lemma_digits_val_nonneg(s.take(j));
        assert(digits_val(s.take(j)) <= digits_val(s.take(j + 1)));
        lemma_digits_val_prefix(s, j + 1);
    }
}

/// Quote values are never negative: whenever a raw quote text yields a
/// value at all, that value is at least zero.
pub proof fn lemma_amount_nonneg(t: Seq<char>)
    ensures
        match amount_of_text(t) {
            Some(v) => v >= 0,
            None => true,
        },
{
    if amount_of_text(t) is Some {
        lemma_digits_val_nonneg(int_digits(cleaned_text(t)));
    }
}

/// Strips the currency glyph and grouping commas from the raw quote text,
/// then parses what is left as a non-negative decimal number and rounds it
/// to the nearest integer (halves round up).
pub fn convert_to_amount(amount_str: String) -> (r: Result<i32, ExtractionError>)
    ensures
        match amount_of_text(amount_str@) {
            Some(v) => r is Ok && r->Ok_0 as int == v,
            None => r == Err::<i32, ExtractionError>(ExtractionError::NumericFormat),
        },
{
    let s = amount_str.as_str();
    let n = s.unicode_len();
    let mut cleaned: Vec<char> = Vec::new();
    let mut i: usize = 0;
    while i < n
        invariant
            n == s@.len(),
            i <= n,
            cleaned@ == cleaned_text(s@.take(i as int)),
        decreases n - i,
    {
        let c = s.get_char(i);
        proof {
            lemma_cleaned_push(s@.take(i as int), s@[i as int]);
            assert(s@.take(i as int + 1) =~= s@.take(i as int).push(s@[i as int]));
        }
        if c != '円' && c != ',' {
            cleaned.push(c);
        }
        i = i + 1;
    }
    proof {
        assert(s@.take(n as int) =~= s@);
    }
    let ghost cl: Seq<char> = cleaned_text(amount_str@);
    let m = cleaned.len();

    // Find the first '.', if any.
    let mut k: usize = 0;
    while k < m
        invariant_except_break
            m == cl.len(),
            cleaned@ == cl,
            k <= m,
            forall|t: int| 0 <= t < k ==> cl[t] != '.',
        ensures
            m == cl.len(),
            cleaned@ == cl,
            k <= m,
            forall|t: int| 0 <= t < k ==> cl[t] != '.',
            k < m ==> cl[k as int] == '.',
        decreases m - k,
    {
        if cleaned[k] == '.' {
            break;
        }
        k = k + 1;
    }
    proof {
        cl.index_of_first_ensures('.');
        assert(dot_split_at(cl) == k as int);
    }

    // Parse and bound the integer part.
    let mut val: u64 = 0;
    let mut j: usize = 0;
    while j < m && j < k
        invariant
            cl == cleaned_text(amount_str@),
            m == cl.len(),
            cleaned@ == cl,
            k <= m,
            dot_split_at(cl) == k as int,
            j <= k,
            all_digits(cl.take(j as int)),
            val as int == digits_val(cl.take(j as int)),
            val <= i32::MAX as u64,
        decreases k - j,
    {
        let c = cleaned[j];
        let u = c as u32;
        proof {
            assert(cl.take(j as int + 1).drop_last() =~= cl.take(j as int));
            assert(cl.take(j as int + 1).last() == cl[j as int]);
        }
        if !('0' as u32 <= u && u <= '9' as u32) {
            proof {
                assert(int_digits(cl)[j as int] == cl[j as int]);
                assert(!is_digit_char(cl[j as int]));
                assert(!is_decimal_text(cl));
            }
            return Err(ExtractionError::NumericFormat);
        }
        val = 10 * val + (u - '0' as u32) as u64;
        proof {
            assert(forall|t: int|
                0 <= t < j as int + 1 ==> #[trigger] cl.take(j as int + 1)[t] == cl[t]);
        }
        if val > i32::MAX as u64 {
            proof {
                if is_decimal_text(cl) {
                    lemma_digits_val_prefix(int_digits(cl), j as int + 1);
                    assert(int_digits(cl).take(j as int + 1) =~= cl.take(j as int + 1));
                    if frac_digits(cl).len() > 0 && digit_val(frac_digits(cl)[0]) >= 5 {
                    }
                    assert(rounded_val(cl) > i32::MAX);
                }
            }
            return Err(ExtractionError::NumericFormat);
        }
        j = j + 1;
    }
    proof {
        assert(cl.take(k as int) == int_digits(cl));
    }

    // Validate the fractional part and read its first digit.
    let mut round_up = false;
    if k < m {
        let mut j: usize = k + 1;
        while j < m
            invariant
                cl == cleaned_text(amount_str@),
                m == cl.len(),
                cleaned@ == cl,
                k < m,
                dot_split_at(cl) == k as int,
                k + 1 <= j <= m,
                forall|t: int| k as int + 1 <= t < j as int ==> is_digit_char(#[trigger] cl[t]),
                round_up == (k as int + 1 < j as int && digit_val(cl[k as int + 1]) >= 5),
            decreases m - j,
        {
            let c = cleaned[j];
            let u = c as u32;
            if !('0' as u32 <= u && u <= '9' as u32) {
                proof {
                    assert(frac_digits(cl)[j - k - 1] == cl[j as int]);
                    assert(!is_decimal_text(cl));
                }
                return Err(ExtractionError::NumericFormat);
            }
            if j == k + 1 && u >= '5' as u32 {
                round_up = true;
            }
            j = j + 1;
        }
    }
    proof {
        if k < m {
            assert(frac_digits(cl) =~= cl.skip(k as int + 1));
            assert(all_digits(frac_digits(cl))) by {
                assert(forall|t: int|
                    0 <= t < frac_digits(cl).len()
                        ==> #[trigger] frac_digits(cl)[t] == cl[t + k as int + 1]);
            }
        } else {
            assert(frac_digits(cl) =~= Seq::<char>::empty());
        }
    }

    // At least one digit in all.
    let frac_len = if k < m { m - k - 1 } else { 0 };
    if k == 0 && frac_len == 0 {
        proof {
            assert(!is_decimal_text(cl));
        }
        return Err(ExtractionError::NumericFormat);
    }
    proof {
        assert(is_decimal_text(cl));
        if k as int + 1 < m as int {
            assert(frac_digits(cl)[0] == cl[k as int + 1]);
        }
        assert(rounded_val(cl) == val as int + if round_up { 1int } else { 0int });
        lemma_digits_val_nonneg(int_digits(cl));
    }

    let result = if round_up { val + 1 } else { val };
    if result > i32::MAX as u64 {
        return Err(ExtractionError::NumericFormat);
    }
    Ok(result as i32)
}

/// Locates the quote element in a markup document and converts its text
/// content into a rounded integer quote. Only the first matching element,
/// in document order, is read; a document without one is rejected.
pub fn get_stock_value(document: String) -> (r: Result<i32, ExtractionError>)
    ensures
        match extract_spec(document@) {
            Ok(v) => r is Ok && r->Ok_0 as int == v,
            Err(e) => r == Err::<i32, ExtractionError>(e),
        },
{
    match select_quote_text(document.as_str()) {
        Some(text) => convert_to_amount(text),
        None => Err(ExtractionError::NoMatch),
    }
}

/// Every cleaned decimal string placed in the quote element is extracted as
/// exactly its value rounded to the nearest integer: on a document whose
/// quote element reads `s`, with `s` a plain decimal numeral whose rounded
/// value fits an `i32`, extraction returns that rounded value.
pub proof fn lemma_extract_clean_decimal(document: Seq<char>, s: Seq<char>)
    requires
        quote_text_of(document) == Some(s),
        is_decimal_text(s),
        rounded_val(s) <= i32::MAX,
    ensures
        extract_spec(document) == Ok::<int, ExtractionError>(rounded_val(s)),
{
    assert(forall|i: int| 0 <= i < s.len() ==> kept_char(#[trigger] s[i])) by {
        assert forall|i: int| 0 <= i < s.len() implies kept_char(#[trigger] s[i]) by {
            let d = dot_split_at(s);
            s.index_of_first_ensures('.');
            if i < d {
                assert(int_digits(s)[i] == s[i]);
                assert(is_digit_char(s[i]));
            } else if i == d {
                assert(s[i] == '.');
            } else {
                assert(frac_digits(s)[i - d - 1] == s[i]);
                assert(is_digit_char(s[i]));
            }
        }
    }
    lemma_cleaned_all_kept(s);
}

} // verus!
