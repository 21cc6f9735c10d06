use vstd::prelude::*;

verus! {

/// Relies on `String`'s `FromIterator<char>` impl: collecting a sequence of
/// characters yields the string with exactly those characters, in order.
#[verifier::external_body]
pub fn chars_to_string(v: &Vec<char>) -> (r: String)
    ensures
        r@ == v@,
{
    v.iter().collect()
}

/// The view of an optional string.
pub open spec fn opt_str_view(o: Option<String>) -> Option<Seq<char>> {
    match o {
        Option::Some(s) => Option::Some(s@),
        Option::None => Option::None,
    }
}

/// Character-for-character string equality.
pub fn str_eq(a: &str, b: &str) -> (r: bool)
    ensures
        r == (a@ == b@),
{
    let na = a.unicode_len();
    let nb = b.unicode_len();
    if na != nb {
        proof {
            assert(a@.len() != b@.len());
        }
        return false;
    }
    let mut i: usize = 0;
    while i < na
        invariant
            i <= na,
            na == a@.len(),
            na == b@.len(),
            forall|j: int| 0 <= j < i ==> a@[j] == b@[j],
        decreases na - i,
    {
        if a.get_char(i) != b.get_char(i) {
            return false;
        }
        i = i + 1;
    }
    proof {
        assert(a@ =~= b@);
    }
    true
}

/// The character for one decimal digit.
pub open spec fn digit_char(d: int) -> char {
    if d == 0 {
        '0'
    } else if d == 1 {
        '1'
    } else if d == 2 {
        '2'
    } else if d == 3 {
        '3'
    } else if d == 4 {
        '4'
    } else if d == 5 {
        '5'
    } else if d == 6 {
        '6'
    } else if d == 7 {
        '7'
    } else if d == 8 {
        '8'
    } else {
        '9'
    }
}

/// The decimal rendering of a non-negative integer.
pub open spec fn dec_rep(n: int) -> Seq<char>
    decreases n,
{
    if n < 10 {
        seq![digit_char(n)]
    } else {
        dec_rep(n / 10).push(digit_char(n % 10))
    }
}

/// The decimal rendering of a signed integer.
pub open spec fn dec_rep_signed(n: int) -> Seq<char> {
    if n < 0 {
        seq!['-'] + dec_rep(-n)
    } else {
        dec_rep(n)
    }
}

fn digit_of(d: u32) -> (c: char)
    requires
        d < 10,
    ensures
        c == digit_char(d as int),
{
    if d == 0 {
        '0'
    } else if d == 1 {
        '1'
    } else if d == 2 {
        '2'
    } else if d == 3 {
        '3'
    } else if d == 4 {
        '4'
    } else if d == 5 {
        '5'
    } else if d == 6 {
        '6'
    } else if d == 7 {
        '7'
    } else if d == 8 {
        '8'
    } else {
        '9'
    }
}

fn push_dec_u32(out: &mut Vec<char>, n: u32)
    ensures
        final(out)@ == old(out)@ + dec_rep(n as int),
    decreases n,
{
    if n < 10 {
        out.push(digit_of(n));
        proof {
            assert(final(out)@ =~= old(out)@ + dec_rep(n as int));
        }
    } else {
        push_dec_u32(out, n / 10);
        out.push(digit_of(n % 10));
        proof {
            assert(final(out)@ =~= old(out)@ + dec_rep(n as int));
        }
    }
}

/// Appends the decimal rendering of `n` to a character buffer.
pub fn push_dec_i32(out: &mut Vec<char>, n: i32)
    ensures
        final(out)@ == old(out)@ + dec_rep_signed(n as int),
{
    if n < 0 {
        out.push('-');
        let wide: i64 = n as i64;
        let mag: u32 = (-wide) as u32;
        proof {
            assert(mag as int == -(n as int));
        }
        push_dec_u32(out, mag);
        proof {
            assert(final(out)@ =~= old(out)@ + dec_rep_signed(n as int));
        }
    } else {
        push_dec_u32(out, n as u32);
    }
}

/// The decimal rendering of `n` as a string.
pub fn i32_to_string(n: i32) -> (r: String)
    ensures
        r@ == dec_rep_signed(n as int),
{
    let mut buf: Vec<char> = Vec::new();
    push_dec_i32(&mut buf, n);
    chars_to_string(&buf)
}

/// A list of integers rendered one per line, each line ended by a newline.
pub open spec fn lines_of(s: Seq<i32>) -> Seq<char>
    decreases s.len(),
{
    if s.len() == 0 {
        Seq::empty()
    } else {
        lines_of(s.drop_last()) + dec_rep_signed(s.last() as int) + seq!['\n']
    }
}

/// The comma-separated decimal rendering of a list of integers.
pub open spec fn join_dec(s: Seq<i32>) -> Seq<char>
    decreases s.len(),
{
    if s.len() == 0 {
        Seq::empty()
    } else if s.len() == 1 {
        dec_rep_signed(s[0] as int)
    } else {
        join_dec(s.drop_last()) + seq![','] + dec_rep_signed(s.last() as int)
    }
}

/// Renders a list of integers as comma-separated decimal text.
pub fn join_i32(v: &Vec<i32>) -> (r: String)
    ensures
        r@ == join_dec(v@),
{
    let mut buf: Vec<char> = Vec::new();
    let n = v.len();
    let mut i: usize = 0;
    while i < n
        invariant
            n == v@.len(),
            i <= n,
            buf@ == join_dec(v@.take(i as int)),
        decreases n - i,
    {
        if i > 0 {
            buf.push(',');
        }
        push_dec_i32(&mut buf, v[i]);
        proof {
            let t = v@.take(i + 1 as int);
            assert(t.drop_last() =~= v@.take(i as int));
            assert(t.last() == v@[i as int]);
            assert(buf@ =~= join_dec(t));
        }
        i = i + 1;
    }
    proof {
        assert(v@.take(n as int) =~= v@);
    }
    chars_to_string(&buf)
}

/// How many entries of `s` equal `x`.
pub open spec fn count_str(s: Seq<Seq<char>>, x: Seq<char>) -> nat
    decreases s.len(),
{
    if s.len() == 0 {
        0
    } else {
        count_str(s.drop_last(), x) + if s.last() == x {
            1nat
        } else {
            0nat
        }
    }
}

/// The distinct entries of `s`, in first-occurrence order.
pub open spec fn uniq_in_order(s: Seq<Seq<char>>) -> Seq<Seq<char>>
    decreases s.len(),
{
    if s.len() == 0 {
        Seq::empty()
    } else if s.drop_last().contains(s.last()) {
        uniq_in_order(s.drop_last())
    } else {
        uniq_in_order(s.drop_last()).push(s.last())
    }
}

/// A counted card entry: the card followed by " x" and its count.
pub open spec fn fmt_entry(c: Seq<char>, n: nat) -> Seq<char> {
    c + " x"@ + dec_rep_signed(n as int)
}

/// Lexicographic order on character sequences, comparing characters by
/// scalar value (the order `BTreeSet<String>` iteration would give).
pub open spec fn lex_le(a: Seq<char>, b: Seq<char>) -> bool
    decreases a.len(),
{
    if a.len() == 0 {
        true
    } else if b.len() == 0 {
        false
    } else if a[0] == b[0] {
        lex_le(a.drop_first(), b.drop_first())
    } else {
        (a[0] as int) < (b[0] as int)
    }
}

fn lex_le_from(a: &str, b: &str, i: usize) -> (r: bool)
    requires
        i <= a@.len(),
        i <= b@.len(),
    ensures
        r == lex_le(a@.skip(i as int), b@.skip(i as int)),
    decreases a@.len() - i,
{
    let na = a.unicode_len();
    let nb = b.unicode_len();
    if i == na {
        proof {
            assert(a@.skip(i as int).len() == 0);
        }
        true
    } else if i == nb {
        proof {
            assert(b@.skip(i as int).len() == 0);
            assert(a@.skip(i as int).len() > 0);
        }
        false
    } else {
        let ca = a.get_char(i);
        let cb = b.get_char(i);
        proof {
            assert(a@.skip(i as int)[0] == ca);
            assert(b@.skip(i as int)[0] == cb);
        }
        if ca == cb {
            let r = lex_le_from(a, b, i + 1);
            proof {
                assert(a@.skip(i as int).drop_first() =~= a@.skip(i + 1 as int));
                assert(b@.skip(i as int).drop_first() =~= b@.skip(i + 1 as int));
            }
            r
        } else {
            let r = (ca as u32) < (cb as u32);
            proof {
                assert(ca as u32 as int == ca as int);
                assert(cb as u32 as int == cb as int);
            }
            r
        }
    }
}

/// Lexicographic comparison of two strings.
pub fn lex_le_str(a: &str, b: &str) -> (r: bool)
    ensures
        r == lex_le(a@, b@),
{
    let r = lex_le_from(a, b, 0);
    proof {
        assert(a@.skip(0) =~= a@);
        assert(b@.skip(0) =~= b@);
    }
    r
}

/// Strict lexicographic order.
pub open spec fn lex_lt(a: Seq<char>, b: Seq<char>) -> bool {
    lex_le(a, b) && a != b
}

/// A strictly ascending sequence of strings: sorted, with no duplicates.
pub open spec fn strictly_sorted(s: Seq<Seq<char>>) -> bool {
    forall|i: int, j: int| 0 <= i < j < s.len() ==> lex_lt(#[trigger] s[i], #[trigger] s[j])
}

/// Lexicographic order is total.
pub proof fn lemma_lex_total(a: Seq<char>, b: Seq<char>)
    ensures
        lex_le(a, b) || lex_le(b, a),
    decreases a.len(),
{
    if a.len() == 0 {
    } else if b.len() == 0 {
    } else if a[0] == b[0] {
        lemma_lex_total(a.drop_first(), b.drop_first());
    } else {
        assert(a[0] as int != b[0] as int);
    }
}

/// Lexicographic order is antisymmetric.
pub proof fn lemma_lex_antisym(a: Seq<char>, b: Seq<char>)
    requires
        lex_le(a, b),
        lex_le(b, a),
    ensures
        a == b,
    decreases a.len(),
{
    if a.len() == 0 {
        assert(b.len() == 0);
        assert(a =~= b);
    } else {
        assert(b.len() > 0);
        if a[0] == b[0] {
            assert(lex_le(a.drop_first(), b.drop_first()));
            assert(lex_le(b.drop_first(), a.drop_first()));
            lemma_lex_antisym(a.drop_first(), b.drop_first());
            assert(a.drop_first() == b.drop_first());
            assert(a.drop_first().len() == a.len() - 1);
            assert(b.drop_first().len() == b.len() - 1);
            assert(a =~= b) by {
                assert(a.len() == b.len());
                assert(forall|i: int|
                    1 <= i < a.len() ==> a[i] == a.drop_first()[i - 1] && b[i] == b.drop_first()[i
                        - 1]);
            }
        }
    }
}

/// Lexicographic order is transitive.
pub proof fn lemma_lex_trans(a: Seq<char>, b: Seq<char>, c: Seq<char>)
    requires
        lex_le(a, b),
        lex_le(b, c),
    ensures
        lex_le(a, c),
    decreases a.len(),
{
    if a.len() == 0 {
    } else {
        assert(b.len() > 0);
        assert(c.len() > 0);
        if a[0] == b[0] && b[0] == c[0] {
            lemma_lex_trans(a.drop_first(), b.drop_first(), c.drop_first());
        }
    }
}

/// Inserting into a strictly sorted sequence keeps it strictly sorted, and
/// afterwards it holds exactly the old entries and the inserted one.
pub proof fn lemma_insert_uniq_sorted(s: Seq<Seq<char>>, x: Seq<char>)
    requires
        strictly_sorted(s),
    ensures
        strictly_sorted(insert_uniq(s, x)),
        forall|y: Seq<char>| #[trigger]
            insert_uniq(s, x).contains(y) <==> s.contains(y) || y == x,
    decreases s.len(),
{
    let r = insert_uniq(s, x);
    if s.len() == 0 {
        assert(r =~= seq![x]);
        assert forall|y: Seq<char>| #[trigger] r.contains(y) <==> s.contains(y) || y == x by {
            assert(r[0] == x);
            if y == x {
                assert(r.contains(y));
            }
        }
    } else if x == s[0] {
        assert(r == s);
        assert forall|y: Seq<char>| #[trigger] r.contains(y) <==> s.contains(y) || y == x by {
            if y == x {
                assert(s[0] == y);
                assert(s.contains(y));
            }
        }
    } else if lex_le(x, s[0]) {
        assert(r == seq![x] + s);
        assert(strictly_sorted(r)) by {
            assert forall|i: int, j: int| 0 <= i < j < r.len() implies lex_lt(
                #[trigger] r[i],
                #[trigger] r[j],
            ) by {
                if i == 0 {
                    assert(r[0] == x);
                    assert(r[j] == s[j - 1]);
                    if j == 1 {
                        assert(lex_lt(x, s[0]));
                    } else {
                        assert(lex_lt(s[0], s[j - 1]));
                        lemma_lex_trans(x, s[0], s[j - 1]);
                        if x == s[j - 1] {
                            lemma_lex_antisym(s[0], s[j - 1]);
                        }
                    }
                } else {
                    assert(r[i] == s[i - 1]);
                    assert(r[j] == s[j - 1]);
                }
            }
        }
        assert forall|y: Seq<char>| #[trigger] r.contains(y) <==> s.contains(y) || y == x by {
            if r.contains(y) {
                let k = choose|k: int| 0 <= k < r.len() && r[k] == y;
                if k == 0 {
                } else {
                    assert(s[k - 1] == y);
                    assert(s.contains(y));
                }
            }
            if s.contains(y) {
                let k = choose|k: int| 0 <= k < s.len() && s[k] == y;
                assert(r[k + 1] == y);
                assert(r.contains(y));
            }
            if y == x {
                assert(r[0] == y);
                assert(r.contains(y));
            }
        }
    } else {
        let t = s.drop_first();
        assert(strictly_sorted(t)) by {
            assert forall|i: int, j: int| 0 <= i < j < t.len() implies lex_lt(
                #[trigger] t[i],
                #[trigger] t[j],
            ) by {
                assert(t[i] == s[i + 1]);
                assert(t[j] == s[j + 1]);
            }
        }
        lemma_insert_uniq_sorted(t, x);
        let u = insert_uniq(t, x);
        assert(r == seq![s[0]] + u);
        lemma_lex_total(x, s[0]);
        assert(lex_le(s[0], x));
        assert(strictly_sorted(r)) by {
            assert forall|i: int, j: int| 0 <= i < j < r.len() implies lex_lt(
                #[trigger] r[i],
                #[trigger] r[j],
            ) by {
                if i == 0 {
                    assert(r[j] == u[j - 1]);
                    assert(u.contains(u[j - 1]));
                    if u[j - 1] == x {
                        assert(lex_lt(s[0], x));
                    } else {
                        assert(t.contains(u[j - 1]));
                        let k = choose|k: int| 0 <= k < t.len() && t[k] == u[j - 1];
                        assert(s[k + 1] == u[j - 1]);
                        assert(lex_lt(s[0], s[k + 1]));
                    }
                } else {
                    assert(r[i] == u[i - 1]);
                    assert(r[j] == u[j - 1]);
                }
            }
        }
        assert forall|y: Seq<char>| #[trigger] r.contains(y) <==> s.contains(y) || y == x by {
            if r.contains(y) {
                let k = choose|k: int| 0 <= k < r.len() && r[k] == y;
                if k == 0 {
                    assert(s[0] == y);
                    assert(s.contains(y));
                } else {
                    assert(u[k - 1] == y);
                    assert(u.contains(y));
                    if !(y == x) {
                        assert(t.contains(y));
                        let k2 = choose|k2: int| 0 <= k2 < t.len() && t[k2] == y;
                        assert(s[k2 + 1] == y);
                        assert(s.contains(y));
                    }
                }
            }
            if s.contains(y) {
                let k = choose|k: int| 0 <= k < s.len() && s[k] == y;
                if k == 0 {
                    assert(r[0] == y);
                } else {
                    assert(t[k - 1] == y);
                    assert(t.contains(y));
                    assert(u.contains(y));
                    let k2 = choose|k2: int| 0 <= k2 < u.len() && u[k2] == y;
                    assert(r[k2 + 1] == y);
                }
                assert(r.contains(y));
            }
            if y == x {
                assert(u.contains(y));
                let k2 = choose|k2: int| 0 <= k2 < u.len() && u[k2] == y;
                assert(r[k2 + 1] == y);
                assert(r.contains(y));
            }
        }
    }
}

/// Inserting a string into a lexicographically sorted sequence, in front of
/// the first entry it is less-or-equal to.
pub open spec fn insert_sorted(s: Seq<Seq<char>>, x: Seq<char>) -> Seq<Seq<char>>
    decreases s.len(),
{
    if s.len() == 0 {
        seq![x]
    } else if lex_le(x, s[0]) {
        seq![x] + s
    } else {
        seq![s[0]] + insert_sorted(s.drop_first(), x)
    }
}

/// Inserting a string into a lexicographically sorted sequence of distinct
/// entries, keeping it sorted and distinct: an entry already present is not
/// inserted again.
pub open spec fn insert_uniq(s: Seq<Seq<char>>, x: Seq<char>) -> Seq<Seq<char>>
    decreases s.len(),
{
    if s.len() == 0 {
        seq![x]
    } else if x == s[0] {
        s
    } else if lex_le(x, s[0]) {
        seq![x] + s
    } else {
        seq![s[0]] + insert_uniq(s.drop_first(), x)
    }
}

/// All entries of a sequence of character sequences, concatenated.
pub open spec fn concat_all(s: Seq<Seq<char>>) -> Seq<char>
    decreases s.len(),
{
    if s.len() == 0 {
        Seq::empty()
    } else {
        s[0] + concat_all(s.drop_first())
    }
}

/// Entries joined by newlines (no trailing newline).
pub open spec fn join_lines(s: Seq<Seq<char>>) -> Seq<char>
    decreases s.len(),
{
    if s.len() == 0 {
        Seq::empty()
    } else if s.len() == 1 {
        s[0]
    } else {
        s[0] + seq!['\n'] + join_lines(s.drop_first())
    }
}

/// Inserts a string into a sorted list, in front of the first entry it is
/// less-or-equal to.
pub fn insert_sorted_vec(v: &mut Vec<String>, x: String)
    ensures
        final(v)@.map_values(|s: String| s@) == insert_sorted(
            old(v)@.map_values(|s: String| s@),
            x@,
        ),
{
    let ghost vs = v@.map_values(|s: String| s@);
    let n = v.len();
    let mut i: usize = 0;
    while i < n
        invariant
            n == v@.len(),
            i <= n,
            v@ == old(v)@,
            vs == v@.map_values(|s: String| s@),
            forall|j: int| 0 <= j < i ==> !lex_le(x@, #[trigger] vs[j]),
        decreases n - i,
    {
        if lex_le_str(x.as_str(), v[i].as_str()) {
            proof {
                assert(vs[i as int] == v@[i as int]@);
                lemma_insert_sorted_at(vs, x@, i as int);
            }
            v.insert(i, x);
            proof {
                assert(final(v)@.map_values(|s: String| s@) =~~= old(v)@.map_values(
                    |s: String| s@,
                ).take(i as int) + seq![x@] + old(v)@.map_values(|s: String| s@).skip(i as int));
            }
            return ;
        }
        i = i + 1;
    }
    proof {
        lemma_insert_sorted_at(vs, x@, n as int);
    }
    v.push(x);
    proof {
        assert(final(v)@.map_values(|s: String| s@) =~~= old(v)@.map_values(|s: String| s@) + seq![
            x@,
        ]);
        assert(old(v)@.map_values(|s: String| s@).take(n as int) =~= old(v)@.map_values(
            |s: String| s@,
        ));
        assert(old(v)@.map_values(|s: String| s@).skip(n as int) =~= Seq::<Seq<char>>::empty());
        assert(old(v)@.map_values(|s: String| s@) + seq![x@] =~= old(v)@.map_values(
            |s: String| s@,
        ).take(n as int) + seq![x@] + old(v)@.map_values(|s: String| s@).skip(n as int));
    }
}

/// Where the first insertion point is, `insert_sorted` splits the sequence
/// there.
proof fn lemma_insert_sorted_at(s: Seq<Seq<char>>, x: Seq<char>, i: int)
    requires
        0 <= i <= s.len(),
        forall|j: int| 0 <= j < i ==> !lex_le(x, s[j]),
        i < s.len() ==> lex_le(x, s[i]),
    ensures
        insert_sorted(s, x) == s.take(i) + seq![x] + s.skip(i),
    decreases s.len(),
{
    if s.len() == 0 {
        assert(insert_sorted(s, x) =~= s.take(i) + seq![x] + s.skip(i));
    } else if i == 0 {
        assert(insert_sorted(s, x) =~= s.take(0) + seq![x] + s.skip(0));
    } else {
        assert(!lex_le(x, s[0]));
        lemma_insert_sorted_at(s.drop_first(), x, i - 1);
        assert(s.drop_first().take(i - 1) =~= s.take(i).drop_first());
        assert(s.drop_first().skip(i - 1) =~= s.skip(i));
        assert(seq![s[0]] + insert_sorted(s.drop_first(), x) =~= s.take(i) + seq![x] + s.skip(i));
    }
}

/// Inserts a string into a sorted duplicate-free list, keeping it sorted
/// and duplicate-free.
pub fn insert_uniq_vec(v: &mut Vec<String>, x: String)
    ensures
        final(v)@.map_values(|s: String| s@) == insert_uniq(old(v)@.map_values(|s: String| s@), x@),
{
    let ghost vs = v@.map_values(|s: String| s@);
    let n = v.len();
    let mut i: usize = 0;
    while i < n
        invariant
            n == v@.len(),
            i <= n,
            v@ == old(v)@,
            vs == v@.map_values(|s: String| s@),
            forall|j: int| 0 <= j < i ==> !lex_le(x@, #[trigger] vs[j]) && x@ != vs[j],
        decreases n - i,
    {
        if str_eq(x.as_str(), v[i].as_str()) {
            proof {
                assert(vs[i as int] == v@[i as int]@);
                lemma_insert_uniq_found(vs, x@, i as int);
            }
            return ;
        }
        if lex_le_str(x.as_str(), v[i].as_str()) {
            proof {
                assert(vs[i as int] == v@[i as int]@);
                lemma_insert_uniq_at(vs, x@, i as int);
            }
            v.insert(i, x);
            proof {
                assert(final(v)@.map_values(|s: String| s@) =~~= old(v)@.map_values(
                    |s: String| s@,
                ).take(i as int) + seq![x@] + old(v)@.map_values(|s: String| s@).skip(i as int));
            }
            return ;
        }
        i = i + 1;
    }
    proof {
        lemma_insert_uniq_at(vs, x@, n as int);
    }
    v.push(x);
    proof {
        assert(old(v)@.map_values(|s: String| s@).take(n as int) =~= old(v)@.map_values(
            |s: String| s@,
        ));
        assert(old(v)@.map_values(|s: String| s@).skip(n as int) =~= Seq::<Seq<char>>::empty());
        assert(final(v)@.map_values(|s: String| s@) =~~= old(v)@.map_values(|s: String| s@) + seq![
            x@,
        ]);
        assert(old(v)@.map_values(|s: String| s@) + seq![x@] =~= old(v)@.map_values(
            |s: String| s@,
        ).take(n as int) + seq![x@] + old(v)@.map_values(|s: String| s@).skip(n as int));
    }
}

proof fn lemma_insert_uniq_found(s: Seq<Seq<char>>, x: Seq<char>, i: int)
    requires
        0 <= i < s.len(),
        forall|j: int| 0 <= j < i ==> !lex_le(x, s[j]) && x != s[j],
        x == s[i],
    ensures
        insert_uniq(s, x) == s,
    decreases s.len(),
{
    if i == 0 {
    } else {
        lemma_insert_uniq_found(s.drop_first(), x, i - 1);
        assert(seq![s[0]] + insert_uniq(s.drop_first(), x) =~= s);
    }
}

proof fn lemma_insert_uniq_at(s: Seq<Seq<char>>, x: Seq<char>, i: int)
    requires
        0 <= i <= s.len(),
        forall|j: int| 0 <= j < i ==> !lex_le(x, s[j]) && x != s[j],
        i < s.len() ==> lex_le(x, s[i]) && x != s[i],
    ensures
        insert_uniq(s, x) == s.take(i) + seq![x] + s.skip(i),
    decreases s.len(),
{
    if s.len() == 0 {
        assert(insert_uniq(s, x) =~= s.take(i) + seq![x] + s.skip(i));
    } else if i == 0 {
        assert(insert_uniq(s, x) =~= s.take(0) + seq![x] + s.skip(0));
    } else {
        lemma_insert_uniq_at(s.drop_first(), x, i - 1);
        assert(s.drop_first().take(i - 1) =~= s.take(i).drop_first());
        assert(s.drop_first().skip(i - 1) =~= s.skip(i));
        assert(seq![s[0]] + insert_uniq(s.drop_first(), x) =~= s.take(i) + seq![x] + s.skip(i));
    }
}

/// Concatenates every entry of a list of strings.
pub fn concat_strings(v: &Vec<String>) -> (r: String)
    ensures
        r@ == concat_all(v@.map_values(|s: String| s@)),
{
    let n = v.len();
    let mut s = String::new();
    let mut i: usize = 0;
    while i < n
        invariant
            n == v@.len(),
            i <= n,
            s@ == concat_all(v@.map_values(|t: String| t@).take(i as int)),
        decreases n - i,
    {
        s.append(v[i].as_str());
        proof {
            lemma_concat_all_take(v@.map_values(|t: String| t@), i as int);
        }
        i = i + 1;
    }
    proof {
        assert(v@.map_values(|t: String| t@).take(n as int) =~= v@.map_values(|t: String| t@));
    }
    s
}

proof fn lemma_concat_all_take(s: Seq<Seq<char>>, i: int)
    requires
        0 <= i < s.len(),
    ensures
        concat_all(s.take(i + 1)) == concat_all(s.take(i)) + s[i],
    decreases i,
{
    if i == 0 {
        assert(s.take(1).len() == 1);
        assert(s.take(1)[0] == s[0]);
        assert(s.take(1).drop_first() =~= Seq::<Seq<char>>::empty());
        assert(concat_all(Seq::<Seq<char>>::empty()) =~= Seq::<char>::empty());
        assert(s.take(0).len() == 0);
        assert(concat_all(s.take(0)) =~= Seq::<char>::empty());
        assert(concat_all(s.take(1)) =~= concat_all(s.take(0)) + s[0]);
    } else {
        lemma_concat_all_take(s.drop_first(), i - 1);
        assert(s.take(i + 1).drop_first() =~= s.drop_first().take(i));
        assert(s.take(i).drop_first() =~= s.drop_first().take(i - 1));
        assert(s.take(i + 1)[0] == s[0]);
        assert(s.take(i)[0] == s[0]);
        assert(concat_all(s.take(i + 1)) == s[0] + concat_all(s.drop_first().take(i)));
        assert(concat_all(s.take(i)) == s[0] + concat_all(s.drop_first().take(i - 1)));
        assert(s.drop_first()[i - 1] == s[i]);
        assert(concat_all(s.take(i + 1)) =~= concat_all(s.take(i)) + s[i]);
    }
}

/// Joins every entry of a list of strings with newlines.
pub fn join_strings_lines(v: &Vec<String>) -> (r: String)
    ensures
        r@ == join_lines(v@.map_values(|s: String| s@)),
{
    let n = v.len();
    let mut s = String::new();
    let mut i: usize = 0;
    while i < n
        invariant
            n == v@.len(),
            i <= n,
            s@ == join_lines(v@.map_values(|t: String| t@).take(i as int)),
        decreases n - i,
    {
        if i > 0 {
            s.append("\n");
        }
        s.append(v[i].as_str());
        proof {
            reveal_strlit("\n");
            lemma_join_lines_take(v@.map_values(|t: String| t@), i as int);
        }
        i = i + 1;
    }
    proof {
        assert(v@.map_values(|t: String| t@).take(n as int) =~= v@.map_values(|t: String| t@));
    }
    s
}

proof fn lemma_join_lines_take(s: Seq<Seq<char>>, i: int)
    requires
        0 <= i < s.len(),
    ensures
        i == 0 ==> join_lines(s.take(1)) == s[0],
        i > 0 ==> join_lines(s.take(i + 1)) == join_lines(s.take(i)) + seq!['\n'] + s[i],
    decreases i,
{
    if i == 0 {
        assert(join_lines(s.take(1)) == s.take(1)[0]);
        assert(s.take(1)[0] == s[0]);
    } else if i == 1 {
        assert(s.take(2).len() == 2);
        assert(s.take(2)[0] == s[0]);
        assert(s.take(2).drop_first() =~= s.subrange(1, 2));
        assert(join_lines(s.take(2)) == s[0] + seq!['\n'] + join_lines(s.subrange(1, 2)));
        assert(s.subrange(1, 2).len() == 1);
        assert(join_lines(s.subrange(1, 2)) == s.subrange(1, 2)[0]);
        assert(s.subrange(1, 2)[0] == s[1]);
        assert(join_lines(s.take(1)) == s[0]);
        assert(join_lines(s.take(2)) =~= join_lines(s.take(1)) + seq!['\n'] + s[1]);
    } else {
        lemma_join_lines_take(s.drop_first(), i - 1);
        assert(s.take(i + 1).len() >= 2);
        assert(s.take(i).len() >= 2);
        assert(s.take(i + 1).drop_first() =~= s.drop_first().take(i));
        assert(s.take(i).drop_first() =~= s.drop_first().take(i - 1));
        assert(s.take(i + 1)[0] == s[0]);
        assert(s.take(i)[0] == s[0]);
        assert(join_lines(s.take(i + 1)) == s[0] + seq!['\n'] + join_lines(s.drop_first().take(i)));
        assert(join_lines(s.take(i)) == s[0] + seq!['\n'] + join_lines(s.drop_first().take(i - 1)));
        assert(s.drop_first()[i - 1] == s[i]);
        assert(join_lines(s.take(i + 1)) =~= join_lines(s.take(i)) + seq!['\n'] + s[i]);
    }
}

/// Whether `needle` occurs as a contiguous run of characters inside
/// `haystack`, starting at position `i`.
pub open spec fn matches_at(haystack: Seq<char>, needle: Seq<char>, i: int) -> bool {
    &&& 0 <= i
    &&& i + needle.len() <= haystack.len()
    &&& haystack.subrange(i, i + needle.len() as int) == needle
}

/// Whether `needle` occurs anywhere inside `haystack`.
pub open spec fn contains_seq(haystack: Seq<char>, needle: Seq<char>) -> bool {
    exists|i: int| matches_at(haystack, needle, i)
}

/// Substring containment, the classifier's marker probe.
pub fn str_contains(haystack: &str, needle: &str) -> (r: bool)
    ensures
        r == contains_seq(haystack@, needle@),
{
    let nh = haystack.unicode_len();
    let nn = needle.unicode_len();
    if nn > nh {
        proof {
            assert(forall|i: int| !matches_at(haystack@, needle@, i));
        }
        return false;
    }
    if nn == 0 {
        proof {
            assert(haystack@.subrange(0, 0) =~= needle@);
            assert(matches_at(haystack@, needle@, 0));
        }
        return true;
    }
    let mut i: usize = 0;
    while i <= nh - nn
        invariant
            nh == haystack@.len(),
            nn == needle@.len(),
            0 < nn <= nh,
            i <= nh - nn + 1,
            forall|k: int| 0 <= k < i ==> !matches_at(haystack@, needle@, k),
        decreases nh - nn + 1 - i,
    {
        let mut j: usize = 0;
        let mut mismatch = false;
        while j < nn
            invariant
                nh == haystack@.len(),
                nn == needle@.len(),
                i + nn <= nh,
                j <= nn,
                !mismatch ==> forall|t: int| 0 <= t < j ==> haystack@[i + t] == needle@[t],
                mismatch ==> !matches_at(haystack@, needle@, i as int),
            decreases nn - j,
        {
            if !mismatch {
                if haystack.get_char(i + j) != needle.get_char(j) {
                    proof {
                        assert(!matches_at(haystack@, needle@, i as int)) by {
                            if matches_at(haystack@, needle@, i as int) {
                                assert(haystack@.subrange(i as int, i + nn as int)[j as int]
                                    == haystack@[i + j as int]);
                            }
                        }
                    }
                    mismatch = true;
                }
            }
            j = j + 1;
        }
        if !mismatch {
            proof {
                assert(haystack@.subrange(i as int, i + nn as int) =~= needle@);
                assert(matches_at(haystack@, needle@, i as int));
            }
            return true;
        }
        i = i + 1;
    }
    proof {
        assert forall|k: int| !matches_at(haystack@, needle@, k) by {
            if 0 <= k && k + needle@.len() <= haystack@.len() {
                assert(k < i);
            }
        }
    }
    false
}

} // verus!
