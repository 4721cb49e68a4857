use vstd::prelude::*;

verus! {

/// The pieces of `s` between newline characters; there is always at least one.
pub open spec fn raw_split(s: Seq<char>) -> Seq<Seq<char>>
    decreases s.len(),
{
    if s.len() == 0 {
        seq![Seq::empty()]
    } else {
        let r = raw_split(s.drop_last());
        if s.last() == '\n' {
            r.push(Seq::empty())
        } else {
            r.update(r.len() - 1, r.last().push(s.last()))
        }
    }
}

/// A line without the carriage return of a CR LF ending.
pub open spec fn strip_cr(l: Seq<char>) -> Seq<char> {
    if l.len() > 0 && l.last() == '\r' {
        l.drop_last()
    } else {
        l
    }
}

pub open spec fn stripped(ls: Seq<Seq<char>>) -> Seq<Seq<char>> {
    ls.map_values(|l: Seq<char>| strip_cr(l))
}

/// The lines of a text: split at each `\n`, a `\r` right before a `\n` taken
/// off, and no empty line after a final newline.
pub open spec fn lines(s: Seq<char>) -> Seq<Seq<char>> {
    let r = raw_split(s);
    let body = stripped(r.drop_last());
    if r.last().len() == 0 {
        body
    } else {
        body.push(r.last())
    }
}

pub open spec fn lines_view(v: Seq<Vec<char>>) -> Seq<Seq<char>> {
    v.map_values(|l: Vec<char>| l@)
}

/// Splits a text into its lines, as `lines` describes.
pub fn split_lines(s: &str) -> (r: Vec<Vec<char>>)
    ensures
        lines_view(r@) == lines(s@),
{
    let mut done: Vec<Vec<char>> = Vec::new();
    let mut cur: Vec<char> = Vec::new();
    let ghost mut raw: Seq<Seq<char>> = Seq::empty();
    let ghost mut seen: Seq<char> = Seq::empty();
    for c in it: s.chars()
        invariant
            it.seq() == s@,
            seen == it.seq().take(it.index() as int),
            raw_split(seen) == raw.push(cur@),
            lines_view(done@) == stripped(raw),
    {
        proof {
            assert(it.seq().take(it.index() + 1) =~= seen.push(c));
        }
        let ghost after = seen.push(c);
        proof {
            assert(after.drop_last() =~= seen);
        }
        if c == '\n' {
            let mut line = Vec::new();
            std::mem::swap(&mut line, &mut cur);
            let ghost whole = line@;
            let n = line.len();
            if n > 0 && line[n - 1] == '\r' {
                line.pop();
            }
            let ghost old_done = done@;
            let ghost old_raw = raw;
            proof {
                assert(lines_view(old_done) == stripped(old_raw));
                assert(lines_view(old_done).len() == old_done.len());
                assert(stripped(old_raw).len() == old_raw.len());
                assert(line@ == strip_cr(whole));
                raw = raw.push(whole);
            }
            done.push(line);
            proof {
                assert forall|i: int| 0 <= i < done@.len() implies #[trigger] lines_view(done@)[i]
                    == stripped(raw)[i] by {
                    if i < old_done.len() {
                        assert(lines_view(old_done)[i] == stripped(old_raw)[i]);
                    }
                }
                assert(lines_view(done@) =~= stripped(raw));
                assert(cur@ =~= Seq::<char>::empty());
            }
        } else {
            let ghost prev = cur@;
            cur.push(c);
            proof {
                assert(raw.push(prev).last() == prev);
                assert(raw.push(prev).update(raw.len() as int, cur@) =~= raw.push(cur@));
            }
        }
        proof {
            seen = after;
        }
    }
    proof {
        assert(seen =~= s@);
        let r = raw_split(s@);
        assert(r.drop_last() =~= raw);
        assert(r.last() == cur@);
    }
    if cur.len() > 0 {
        done.push(cur);
        proof {
            assert(lines_view(done@) =~= lines(s@));
        }
    } else {
        proof {
            assert(lines_view(done@) =~= lines(s@));
        }
    }
    done
}

} // verus!

verus! {

/// What `str::trim` makes of a text.
pub uninterp spec fn trim_of(s: Seq<char>) -> Seq<char>;

/// Relies on str::trim: the result depends on the characters alone.
#[verifier::external_body]
pub(crate) fn trim(s: &str) -> (r: &str)
    ensures
        r@ == trim_of(s@),
{
    s.trim()
}

} // verus!

verus! {

pub open spec fn digit_char(d: nat) -> char {
    seq!['0', '1', '2', '3', '4', '5', '6', '7', '8', '9'][d as int]
}

/// The decimal digits of a number, without leading zeros.
pub open spec fn decimal_text(n: nat) -> Seq<char>
    decreases n,
{
    if n < 10 {
        seq![digit_char(n)]
    } else {
        decimal_text(n / 10).push(digit_char(n % 10))
    }
}

/// Relies on `u64`'s `Display` (through `to_string`): the decimal digits of
/// the number, without sign or leading zeros.
#[verifier::external_body]
pub(crate) fn decimal(n: u64) -> (r: String)
    ensures
        r@ == decimal_text(n as nat),
{
    n.to_string()
}

} // verus!
