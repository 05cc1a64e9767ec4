//! Searching the catalog: which items a pattern matches, and the order in
//! which they are listed.

use crate::database::{Database, Item, ItemView, Tables};
use crate::text::chars_of;
use vstd::prelude::*;

verus! {

/// The code of a character, with the capital letters of the basic Latin
/// alphabet taken as their small letters.
pub open spec fn letter_code(c: char) -> u32 {
    if 65 <= c as u32 <= 90 {
        (c as u32 + 32) as u32
    } else {
        c as u32
    }
}

/// Whether the pattern, from position `i`, matches the text from position
/// `j` to its end.
pub open spec fn like_at(pattern: Seq<char>, text: Seq<char>, i: int, j: int) -> bool
    decreases pattern.len() - i, text.len() - j,
{
    if i < 0 || j < 0 {
        false
    } else if i >= pattern.len() {
        j == text.len()
    } else if pattern[i] == '%' {
        like_at(pattern, text, i + 1, j) || (j < text.len() && like_at(pattern, text, i, j + 1))
    } else {
        j < text.len() && (pattern[i] == '_' || letter_code(pattern[i]) == letter_code(text[j]))
            && like_at(pattern, text, i + 1, j + 1)
    }
}

/// Whether a pattern matches a whole text. In a pattern `%` stands for any
/// run of characters, the empty one too, and `_` for any one character; any
/// other character stands for itself, a letter of the basic Latin alphabet in
/// either case.
pub open spec fn like(pattern: Seq<char>, text: Seq<char>) -> bool {
    like_at(pattern, text, 0, 0)
}

/// Whether text `a`, from position `i` on, comes no later than text `b` from
/// the same position on.
pub open spec fn text_le_at(a: Seq<char>, b: Seq<char>, i: int) -> bool
    decreases a.len() - i,
{
    if i < 0 || i >= a.len() {
        true
    } else if i >= b.len() {
        false
    } else if a[i] != b[i] {
        (a[i] as u32) < (b[i] as u32)
    } else {
        text_le_at(a, b, i + 1)
    }
}

/// Whether text `a` comes no later than text `b` in the order of the
/// dictionary, the characters taken by their codes.
pub open spec fn text_le(a: Seq<char>, b: Seq<char>) -> bool {
    text_le_at(a, b, 0)
}

/// Whether item `a` is listed before item `b`: by part number, and by
/// identifier where the part numbers are the same.
pub open spec fn listed_before(a: ItemView, b: ItemView) -> bool {
    text_le(a.pn, b.pn) && (a.pn == b.pn ==> a.id < b.id)
}

impl Tables {
    /// Whether the pattern matches the part number or the name of an item.
    pub open spec fn matches(self, pattern: Seq<char>, id: int) -> bool {
        like(pattern, self.item(id).pn) || like(pattern, self.item(id).name)
    }

    /// Whether a list is the answer to a search: it holds the stored items
    /// that the pattern matches, each once, ordered by part number.
    pub open spec fn is_search_result(self, pattern: Seq<char>, found: Seq<ItemView>) -> bool {
        &&& forall|k: int|
            0 <= k < found.len() ==> self.has_item((#[trigger] found[k]).id) && found[k]
                == self.item(found[k].id) && self.matches(pattern, found[k].id)
        &&& forall|id: int|
            self.has_item(id) && #[trigger] self.matches(pattern, id) ==> found.contains(self.item(id))
        &&& forall|k: int, l: int|
            0 <= k < l < found.len() ==> listed_before(#[trigger] found[k], #[trigger] found[l])
    }
}

proof fn lemma_codes_differ(x: char, y: char)
    requires
        x != y,
    ensures
        x as u32 != y as u32,
{
}

proof fn lemma_text_le_at_same(a: Seq<char>, i: int)
    requires
        0 <= i,
    ensures
        text_le_at(a, a, i),
    decreases a.len() - i,
{
    if i < a.len() {
        lemma_text_le_at_same(a, i + 1);
    }
}

proof fn lemma_text_le_at_total(a: Seq<char>, b: Seq<char>, i: int)
    requires
        0 <= i,
        forall|k: int| 0 <= k < i && k < a.len() && k < b.len() ==> a[k] == b[k],
        i <= a.len() || i <= b.len(),
    ensures
        text_le_at(a, b, i) || (text_le_at(b, a, i) && a != b),
    decreases a.len() - i,
{
    if i < a.len() && i < b.len() && a[i] == b[i] {
        lemma_text_le_at_total(a, b, i + 1);
    } else if i < a.len() && i < b.len() {
        lemma_codes_differ(a[i], b[i]);
        assert(a != b);
    } else if i >= a.len() {
    } else {
        assert(a.len() != b.len());
    }
}

proof fn lemma_text_le_at_trans(a: Seq<char>, b: Seq<char>, c: Seq<char>, i: int)
    requires
        0 <= i,
        text_le_at(a, b, i),
        text_le_at(b, c, i),
    ensures
        text_le_at(a, c, i),
    decreases a.len() - i,
{
    if i < a.len() {
        if a[i] == b[i] && b[i] == c[i] {
            lemma_text_le_at_trans(a, b, c, i + 1);
        }
    }
}

proof fn lemma_text_le_at_equal(a: Seq<char>, b: Seq<char>, i: int)
    requires
        0 <= i <= a.len(),
        i <= b.len(),
        text_le_at(a, b, i),
        text_le_at(b, a, i),
    ensures
        a.skip(i) == b.skip(i),
    decreases a.len() - i,
{
    if i < a.len() {
        lemma_text_le_at_equal(a, b, i + 1);
        assert(a.skip(i) =~= seq![a[i]] + a.skip(i + 1));
        assert(b.skip(i) =~= seq![b[i]] + b.skip(i + 1));
    } else {
        assert(a.skip(i) =~= b.skip(i));
    }
}

/// Of two texts, one comes no later than the other.
pub proof fn lemma_text_le_total(a: Seq<char>, b: Seq<char>)
    ensures
        text_le(a, b) || (text_le(b, a) && a != b),
{
    lemma_text_le_at_total(a, b, 0);
}

/// The order of texts is transitive.
pub proof fn lemma_text_le_trans(a: Seq<char>, b: Seq<char>, c: Seq<char>)
    requires
        text_le(a, b),
        text_le(b, c),
    ensures
        text_le(a, c),
{
    lemma_text_le_at_trans(a, b, c, 0);
}

/// Two texts that come no later than each other are the same text.
pub proof fn lemma_text_le_antisymmetric(a: Seq<char>, b: Seq<char>)
    requires
        text_le(a, b),
        text_le(b, a),
    ensures
        a == b,
{
    lemma_text_le_at_equal(a, b, 0);
    assert(a.skip(0) =~= a);
    assert(b.skip(0) =~= b);
}

/// Whether a text holds another at a position, letters of the basic Latin
/// alphabet taken in either case.
pub open spec fn holds_at(text: Seq<char>, part: Seq<char>, at: int) -> bool {
    &&& 0 <= at
    &&& at + part.len() <= text.len()
    &&& forall|k: int|
        0 <= k < part.len() ==> letter_code(#[trigger] part[k]) == letter_code(text[at + k])
}

/// Whether a text holds another somewhere.
pub open spec fn holds(text: Seq<char>, part: Seq<char>) -> bool {
    exists|at: int| holds_at(text, part, at)
}

/// Whether a text is free of the two characters that stand for others in a
/// pattern.
pub open spec fn plain(part: Seq<char>) -> bool {
    forall|k: int| 0 <= k < part.len() ==> #[trigger] part[k] != '%' && part[k] != '_'
}

/// The pattern that finds a text anywhere: the text between two `%`.
pub open spec fn anywhere(part: Seq<char>) -> Seq<char> {
    seq!['%'] + part + seq!['%']
}

proof fn lemma_last_percent(part: Seq<char>, text: Seq<char>, j: int)
    requires
        0 <= j <= text.len(),
    ensures
        like_at(anywhere(part), text, part.len() as int + 1, j),
    decreases text.len() - j,
{
    let p = anywhere(part);
    assert(p[part.len() as int + 1] == '%');
    assert(p.len() == part.len() + 2);
    if j < text.len() {
        lemma_last_percent(part, text, j + 1);
    } else {
        assert(like_at(p, text, part.len() as int + 2, j));
    }
}

proof fn lemma_letters(part: Seq<char>, text: Seq<char>, from: int, j: int)
    requires
        plain(part),
        0 <= from <= part.len(),
        0 <= j,
    ensures
        like_at(anywhere(part), text, from + 1, j) <==> (j + (part.len() - from) <= text.len()
            && forall|k: int|
            from <= k < part.len() ==> letter_code(#[trigger] part[k]) == letter_code(
                text[j + k - from],
            )),
    decreases part.len() - from,
{
    let p = anywhere(part);
    assert(p.len() == part.len() + 2);
    if from == part.len() {
        if j <= text.len() {
            lemma_last_percent(part, text, j);
        } else {
            assert(p[part.len() as int + 1] == '%');
            assert(!like_at(p, text, part.len() as int + 2, j));
        }
    } else {
        assert(p[from + 1] == part[from]);
        lemma_letters(part, text, from + 1, j + 1);
        let rest = j + 1 + (part.len() - (from + 1)) <= text.len() && forall|k: int|
            from + 1 <= k < part.len() ==> letter_code(#[trigger] part[k]) == letter_code(
                text[j + 1 + k - (from + 1)],
            );
        let all = j + (part.len() - from) <= text.len() && forall|k: int|
            from <= k < part.len() ==> letter_code(#[trigger] part[k]) == letter_code(
                text[j + k - from],
            );
        if all {
            assert(letter_code(part[from]) == letter_code(text[j + from - from]));
            assert(rest) by {
                assert forall|k: int| from + 1 <= k < part.len() implies letter_code(
                    #[trigger] part[k],
                ) == letter_code(text[j + 1 + k - (from + 1)]) by {
                    assert(letter_code(part[k]) == letter_code(text[j + k - from]));
                }
            }
        }
        if j < text.len() && letter_code(part[from]) == letter_code(text[j]) && rest {
            assert(all) by {
                assert forall|k: int| from <= k < part.len() implies letter_code(
                    #[trigger] part[k],
                ) == letter_code(text[j + k - from]) by {
                    if k > from {
                        assert(letter_code(part[k]) == letter_code(text[j + 1 + k - (from + 1)]));
                    }
                }
            }
        }
    }
}

proof fn lemma_first_percent(part: Seq<char>, text: Seq<char>, j: int)
    requires
        plain(part),
        0 <= j,
    ensures
        like_at(anywhere(part), text, 0, j) <==> exists|at: int|
            j <= at && #[trigger] holds_at(text, part, at),
    decreases text.len() - j,
{
    let p = anywhere(part);
    assert(p[0] == '%');
    assert(p.len() == part.len() + 2);
    lemma_letters(part, text, 0, j);
    assert(like_at(p, text, 1, j) <==> holds_at(text, part, j)) by {
        if holds_at(text, part, j) {
            assert forall|k: int| 0 <= k < part.len() implies letter_code(#[trigger] part[k])
                == letter_code(text[j + k - 0]) by {
                assert(letter_code(part[k]) == letter_code(text[j + k]));
            }
        }
        if like_at(p, text, 1, j) {
            assert forall|k: int| 0 <= k < part.len() implies letter_code(#[trigger] part[k])
                == letter_code(text[j + k]) by {
                assert(letter_code(part[k]) == letter_code(text[j + k - 0]));
            }
        }
    }
    if j < text.len() {
        lemma_first_percent(part, text, j + 1);
        if exists|at: int| j <= at && #[trigger] holds_at(text, part, at) {
            let at = choose|at: int| j <= at && #[trigger] holds_at(text, part, at);
            if at > j {
                assert(j + 1 <= at && holds_at(text, part, at));
            }
        }
        if like_at(p, text, 0, j + 1) {
            let at = choose|at: int| j + 1 <= at && #[trigger] holds_at(text, part, at);
            assert(j <= at && holds_at(text, part, at));
        }
    } else {
        if exists|at: int| j <= at && #[trigger] holds_at(text, part, at) {
            let at = choose|at: int| j <= at && #[trigger] holds_at(text, part, at);
            assert(at == j);
        }
    }
}

/// A text between two `%` is a pattern that matches exactly the texts that
/// hold it somewhere, where the text itself is free of `%` and `_`.
pub proof fn lemma_like_anywhere(part: Seq<char>, text: Seq<char>)
    requires
        plain(part),
    ensures
        like(anywhere(part), text) <==> holds(text, part),
{
    lemma_first_percent(part, text, 0);
    if holds(text, part) {
        let at = choose|at: int| holds_at(text, part, at);
        assert(0 <= at && holds_at(text, part, at));
    }
}

/// No item is listed before itself, and of two items one at most is listed
/// before the other.
pub proof fn lemma_listed_before_strict(a: ItemView, b: ItemView)
    ensures
        !listed_before(a, a),
        !(listed_before(a, b) && listed_before(b, a)),
{
    if listed_before(a, b) && listed_before(b, a) {
        lemma_text_le_antisymmetric(a.pn, b.pn);
    }
}

proof fn lemma_results_agree_upto(
    t: Tables,
    pattern: Seq<char>,
    a: Seq<ItemView>,
    b: Seq<ItemView>,
    k: int,
)
    requires
        t.is_search_result(pattern, a),
        t.is_search_result(pattern, b),
        0 <= k <= a.len(),
    ensures
        k <= b.len(),
        forall|i: int| 0 <= i < k ==> a[i] == b[i],
    decreases k,
{
    if k > 0 {
        lemma_results_agree_upto(t, pattern, a, b, k - 1);
        let at = k - 1;
        // The item of the one list stands somewhere in the other list.
        let x = a[at];
        assert(t.has_item(x.id) && x == t.item(x.id) && t.matches(pattern, x.id));
        assert(b.contains(t.item(x.id)));
        let m = choose|m: int| 0 <= m < b.len() && b[m] == x;
        if m < at {
            assert(a[m] == b[m]);
            assert(listed_before(a[m], a[at]));
            lemma_listed_before_strict(x, x);
        }
        let y = b[at];
        assert(t.has_item(y.id) && y == t.item(y.id) && t.matches(pattern, y.id));
        assert(a.contains(t.item(y.id)));
        let n = choose|n: int| 0 <= n < a.len() && a[n] == y;
        if n < at {
            assert(a[n] == b[n]);
            assert(listed_before(b[n], b[at]));
            lemma_listed_before_strict(y, y);
        }
        if m > at {
            assert(listed_before(b[at], b[m]));
            if n > at {
                assert(listed_before(a[at], a[n]));
                lemma_listed_before_strict(x, y);
            }
        }
    }
}

/// A search has one answer: two lists that both hold the items that the
/// pattern matches, each once and ordered by part number, are the same list.
pub proof fn lemma_search_result_unique(
    t: Tables,
    pattern: Seq<char>,
    a: Seq<ItemView>,
    b: Seq<ItemView>,
)
    requires
        t.is_search_result(pattern, a),
        t.is_search_result(pattern, b),
    ensures
        a == b,
{
    lemma_results_agree_upto(t, pattern, a, b, a.len() as int);
    lemma_results_agree_upto(t, pattern, b, a, b.len() as int);
    assert(a =~= b);
}

fn code_of(c: char) -> (code: u32)
    ensures
        code == letter_code(c),
{
    let code = c as u32;
    if 65 <= code && code <= 90 {
        code + 32
    } else {
        code
    }
}

/// Whether a pattern matches a whole text.
pub fn like_match(pattern: &Vec<char>, text: &Vec<char>) -> (yes: bool)
    ensures
        yes == like(pattern@, text@),
{
    let m = pattern.len();
    let n = text.len();
    // `row[j]` says whether the pattern from `i` matches the text from `j`,
    // and `tail` says so for the empty rest of the text.
    let mut row: Vec<bool> = Vec::new();
    let mut filled: usize = 0;
    while filled < n
        invariant
            filled <= n,
            n == text@.len(),
            m == pattern@.len(),
            row@.len() == filled,
            forall|x: int| 0 <= x < filled ==> row@[x] == like_at(pattern@, text@, m as int, x),
        decreases n - filled,
    {
        row.push(false);
        filled += 1;
    }
    let mut tail = true;
    let mut i = m;
    while i > 0
        invariant
            i <= m,
            n == text@.len(),
            m == pattern@.len(),
            row@.len() == n,
            forall|x: int| 0 <= x < n ==> row@[x] == like_at(pattern@, text@, i as int, x),
            tail == like_at(pattern@, text@, i as int, n as int),
        decreases i,
    {
        i -= 1;
        let c = pattern[i];
        if c == '%' {
            let mut j = n;
            while j > 0
                invariant
                    j <= n,
                    i < m,
                    n == text@.len(),
                    m == pattern@.len(),
                    row@.len() == n,
                    pattern@[i as int] == '%',
                    tail == like_at(pattern@, text@, i + 1, n as int),
                    forall|x: int| 0 <= x < j ==> row@[x] == like_at(pattern@, text@, i + 1, x),
                    forall|x: int| j <= x < n ==> row@[x] == like_at(pattern@, text@, i as int, x),
                decreases j,
            {
                j -= 1;
                let after = if j + 1 < n {
                    row[j + 1]
                } else {
                    tail
                };
                assert(like_at(pattern@, text@, i as int, n as int) == tail);
                let here = row[j] || after;
                row.set(j, here);
            }
        } else {
            let mut j: usize = 0;
            let wild = c == '_';
            let code = code_of(c);
            while j < n
                invariant
                    j <= n,
                    i < m,
                    n == text@.len(),
                    m == pattern@.len(),
                    row@.len() == n,
                    c == pattern@[i as int],
                    c != '%',
                    wild == (c == '_'),
                    code == letter_code(c),
                    tail == like_at(pattern@, text@, i + 1, n as int),
                    forall|x: int| 0 <= x < j ==> row@[x] == like_at(pattern@, text@, i as int, x),
                    forall|x: int| j <= x < n ==> row@[x] == like_at(pattern@, text@, i + 1, x),
                decreases n - j,
            {
                let after = if j + 1 < n {
                    row[j + 1]
                } else {
                    tail
                };
                let here = (wild || code == code_of(text[j])) && after;
                row.set(j, here);
                j += 1;
            }
            tail = false;
        }
    }
    if n == 0 {
        tail
    } else {
        row[0]
    }
}

/// Whether text `a` comes no later than text `b`.
pub fn text_no_later(a: &Vec<char>, b: &Vec<char>) -> (yes: bool)
    ensures
        yes == text_le(a@, b@),
{
    let mut i: usize = 0;
    while i < a.len()
        invariant
            i <= a@.len(),
            text_le_at(a@, b@, i as int) == text_le(a@, b@),
        decreases a@.len() - i,
    {
        if i >= b.len() {
            return false;
        }
        if a[i] != b[i] {
            return (a[i] as u32) < (b[i] as u32);
        }
        i += 1;
    }
    true
}

/// Whether the pattern matches the part number or the name of an item.
fn item_matches(pattern: &Vec<char>, item: &Item) -> (yes: bool)
    ensures
        yes == (like(pattern@, item@.pn) || like(pattern@, item@.name)),
{
    let pn = chars_of(item.pn());
    if like_match(pattern, &pn) {
        return true;
    }
    let name = chars_of(item.name());
    like_match(pattern, &name)
}

/// Whether the part number of an item comes no later than the given one.
fn pn_no_later(item: &Item, pn: &Vec<char>) -> (yes: bool)
    ensures
        yes == text_le(item@.pn, pn@),
{
    let own = chars_of(item.pn());
    text_no_later(&own, pn)
}

/// Puts an item into a list that is ordered by part number, behind the items
/// that come no later.
fn insert_listed(found: &mut Vec<Item>, item: Item)
    requires
        forall|k: int, l: int|
            0 <= k < l < old(found)@.len() ==> listed_before(
                (#[trigger] old(found)@[k])@,
                (#[trigger] old(found)@[l])@,
            ),
        forall|k: int| 0 <= k < old(found)@.len() ==> (#[trigger] old(found)@[k])@.id < item@.id,
    ensures
        forall|k: int, l: int|
            0 <= k < l < final(found)@.len() ==> listed_before(
                (#[trigger] final(found)@[k])@,
                (#[trigger] final(found)@[l])@,
            ),
        final(found)@.len() == old(found)@.len() + 1,
        exists|at: int|
            0 <= at <= old(found)@.len() && #[trigger] final(found)@ == old(found)@.insert(at, item),
{
    let pn = chars_of(item.pn());
    let mut at: usize = found.len();
    while at > 0 && !pn_no_later(&found[at - 1], &pn)
        invariant
            at <= found@.len(),
            found@ == old(found)@,
            pn@ == item@.pn,
            forall|k: int|
                at <= k < found@.len() ==> !text_le((#[trigger] found@[k])@.pn, item@.pn),
        decreases at,
    {
        at -= 1;
    }
    let ghost before = found@;
    let ghost placed = item;
    found.insert(at, item);
    proof {
        let after = found@;
        assert(after == before.insert(at as int, placed));
        assert forall|k: int, l: int| 0 <= k < l < after.len() implies listed_before(
            (#[trigger] after[k])@,
            (#[trigger] after[l])@,
        ) by {
            let k0 = if k < at {
                k
            } else {
                k - 1
            };
            let l0 = if l < at {
                l
            } else {
                l - 1
            };
            if k == at {
                assert(after[l] == before[l0]);
                assert(!text_le(before[l0]@.pn, placed@.pn));
                lemma_text_le_total(placed@.pn, before[l0]@.pn);
                if placed@.pn == before[l0]@.pn {
                    lemma_text_le_at_same(placed@.pn, 0);
                }
            } else if l == at {
                assert(after[k] == before[k0]);
                assert(text_le(before[at - 1]@.pn, placed@.pn));
                if k0 < at - 1 {
                    assert(listed_before(before[k0]@, before[at - 1]@));
                    lemma_text_le_trans(before[k0]@.pn, before[at - 1]@.pn, placed@.pn);
                }
            } else {
                assert(after[k] == before[k0]);
                assert(after[l] == before[l0]);
                assert(listed_before(before[k0]@, before[l0]@));
            }
        }
    }
}

/// The stored items whose part number or name the pattern matches, ordered by
/// part number.
pub fn search_in(db: &Database, pattern: &str) -> (found: Vec<Item>)
    requires
        db.wf(),
    ensures
        db@.is_search_result(pattern@, crate::database::item_views(found@)),
{
    let ghost t = db@;
    proof {
        db.lemma_wf_valid();
    }
    let wanted = chars_of(pattern);
    let count = db.item_count();
    let mut found: Vec<Item> = Vec::new();
    let mut seen: usize = 0;
    while seen < count
        invariant
            db.wf(),
            t == db@,
            t.valid(),
            count == t.items.len(),
            seen <= count,
            wanted@ == pattern@,
            forall|k: int|
                0 <= k < found@.len() ==> t.has_item((#[trigger] found@[k])@.id) && found@[k]@
                    == t.item(found@[k]@.id) && t.matches(pattern@, found@[k]@.id) && found@[k]@.id
                    <= seen,
            forall|id: int|
                1 <= id <= seen && #[trigger] t.matches(pattern@, id) ==> exists|k: int|
                    0 <= k < found@.len() && (#[trigger] found@[k])@ == t.item(id),
            forall|k: int, l: int|
                0 <= k < l < found@.len() ==> listed_before(
                    (#[trigger] found@[k])@,
                    (#[trigger] found@[l])@,
                ),
        decreases count - seen,
    {
        let id = (seen as u64 + 1) as i64;
        let item = db.item(id);
        assert(item@.id == id);
        if item_matches(&wanted, &item) {
            let ghost before = found@;
            let ghost placed = item;
            insert_listed(&mut found, item);
            proof {
                let at = choose|at: int|
                    0 <= at <= before.len() && #[trigger] found@ == before.insert(at, placed);
                assert forall|k: int| 0 <= k < found@.len() implies t.has_item(
                    (#[trigger] found@[k])@.id,
                ) && found@[k]@ == t.item(found@[k]@.id) && t.matches(pattern@, found@[k]@.id)
                    && found@[k]@.id <= seen + 1 by {
                    if k < at {
                        assert(found@[k] == before[k]);
                    } else if k > at {
                        assert(found@[k] == before[k - 1]);
                    }
                }
                assert forall|other: int|
                    1 <= other <= seen + 1 && #[trigger] t.matches(
                        pattern@,
                        other,
                    ) implies exists|k: int|
                    0 <= k < found@.len() && (#[trigger] found@[k])@ == t.item(other) by {
                    if other == seen + 1 {
                        assert(found@[at]@ == t.item(other));
                    } else {
                        let k = choose|k: int|
                            0 <= k < before.len() && (#[trigger] before[k])@ == t.item(other);
                        let k1 = if k < at {
                            k
                        } else {
                            k + 1
                        };
                        assert(found@[k1] == before[k]);
                    }
                }
            }
        }
        seen += 1;
    }
    proof {
        let views = crate::database::item_views(found@);
        assert forall|id: int|
            t.has_item(id) && #[trigger] t.matches(pattern@, id) implies views.contains(
            t.item(id),
        ) by {
            let k = choose|k: int| 0 <= k < found@.len() && (#[trigger] found@[k])@ == t.item(id);
            assert(views[k] == t.item(id));
        }
    }
    found
}

} // verus!
