//! Rendering of the two-column tables the shell prints: a blank line, a
//! header row, an underline row, a blank line, one row per item, and a
//! final blank line. Each cell is padded with spaces to 24 characters.

use vstd::prelude::*;

verus! {

/// `n` spaces (none when `n` is not positive).
pub open spec fn spaces(n: int) -> Seq<char> {
    Seq::new(if n < 0 { 0 } else { n as nat }, |i: int| ' ')
}

/// `s` padded on the right with spaces to 24 characters; a longer string
/// is kept whole.
pub open spec fn padded(s: Seq<char>) -> Seq<char> {
    s + spaces(24 - s.len())
}

/// One table row: both cells padded, a single space between, a newline at
/// the end.
pub open spec fn table_row(a: Seq<char>, b: Seq<char>) -> Seq<char> {
    padded(a) + seq![' '] + padded(b) + seq!['\n']
}

/// The body of a table: one row per item.
pub open spec fn table_rows(rows: Seq<(String, String)>) -> Seq<char>
    decreases rows.len(),
{
    if rows.len() == 0 {
        Seq::<char>::empty()
    } else {
        table_rows(rows.drop_last()) + table_row(rows.last().0@, rows.last().1@)
    }
}

/// A whole table: blank line, header row, underline row and blank line,
/// the body, and a final blank line.
pub open spec fn rendered_table(hl: Seq<char>, hr: Seq<char>, rows: Seq<(String, String)>) -> Seq<
    char,
> {
    seq!['\n'] + table_row(hl, hr) + table_row("----"@, "----------"@) + seq!['\n'] + table_rows(
        rows,
    ) + seq!['\n']
}

/// Append `s`, padded with spaces to 24 characters, onto `out`.
fn push_padded(out: &mut String, s: &str)
    ensures
        final(out)@ == old(out)@ + padded(s@),
{
    let l = s.unicode_len();
    out.append(s);
    proof {
        assert(out@ =~= old(out)@ + s@ + spaces(0));
    }
    let mut k = l;
    while k < 24
        invariant
            l == s@.len(),
            l <= k,
            k == l || k <= 24,
            out@ == old(out)@ + s@ + spaces(k - l),
        decreases 24 - k,
    {
        out.append(" ");
        k = k + 1;
        proof {
            reveal_strlit(" ");
            assert(" "@ =~= spaces(1));
            assert(out@ =~= old(out)@ + s@ + spaces(k - l));
        }
    }
    proof {
        assert(out@ =~= old(out)@ + padded(s@));
    }
}

/// Append one table row onto `out`.
fn push_row(out: &mut String, a: &str, b: &str)
    ensures
        final(out)@ == old(out)@ + table_row(a@, b@),
{
    push_padded(out, a);
    proof {
        reveal_strlit(" ");
        reveal_strlit("\n");
        assert(" "@ =~= seq![' ']);
        assert("\n"@ =~= seq!['\n']);
    }
    out.append(" ");
    push_padded(out, b);
    out.append("\n");
    proof {
        assert(out@ =~= old(out)@ + table_row(a@, b@));
    }
}

/// The table with the given header cells and rows, exactly as the shell
/// prints it.
pub fn render_table(hl: &str, hr: &str, rows: &Vec<(String, String)>) -> (r: String)
    ensures
        r@ == rendered_table(hl@, hr@, rows@),
{
    let mut out = String::new();
    proof {
        reveal_strlit("\n");
        assert("\n"@ =~= seq!['\n']);
    }
    out.append("\n");
    push_row(&mut out, hl, hr);
    push_row(&mut out, "----", "----------");
    out.append("\n");
    let ghost prefix = out@;
    let n = rows.len();
    let mut i: usize = 0;
    while i < n
        invariant
            i <= n,
            n == rows@.len(),
            out@ == prefix + table_rows(rows@.take(i as int)),
        decreases n - i,
    {
        push_row(&mut out, rows[i].0.as_str(), rows[i].1.as_str());
        i = i + 1;
        proof {
            let t = rows@.take(i as int);
            assert(t.drop_last() =~= rows@.take(i as int - 1));
            assert(t.last() == rows@[i as int - 1]);
            assert(out@ =~= prefix + table_rows(t));
        }
    }
    proof {
        assert(rows@.take(n as int) =~= rows@);
    }
    out.append("\n");
    proof {
        assert(out@ =~= rendered_table(hl@, hr@, rows@));
    }
    out
}

} // verus!
