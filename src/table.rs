use vstd::prelude::*;

verus! {

/// `n` copies of `c`.
pub open spec fn repeated(c: char, n: nat) -> Seq<char> {
    Seq::new(n, |_i: int| c)
}

/// `s` centred in `width` characters with spaces, the odd space on the right;
/// a longer `s` as it is.
pub open spec fn centered(s: Seq<char>, width: nat) -> Seq<char> {
    if s.len() >= width {
        s
    } else {
        let pad = (width - s.len()) as nat;
        repeated(' ', pad / 2) + s + repeated(' ', (pad - pad / 2) as nat)
    }
}

/// `s` followed by spaces up to `width` characters; a longer `s` as it is.
pub open spec fn left_aligned(s: Seq<char>, width: nat) -> Seq<char> {
    if s.len() >= width {
        s
    } else {
        s + repeated(' ', (width - s.len()) as nat)
    }
}

/// The head of the plug-in table.
pub open spec fn header_line() -> Seq<char> {
    centered("Installed"@, 11) + "|"@ + centered("Name"@, 40) + "|"@ + centered("Version"@, 45)
}

/// The line under the head of the plug-in table.
pub open spec fn rule_line() -> Seq<char> {
    repeated('-', 11) + "|"@ + repeated('-', 40) + "|"@ + repeated('-', 45)
}

/// The line of the plug-in table for one plug-in.
pub open spec fn row_line(installed: bool, name: Seq<char>, version: Seq<char>) -> Seq<char> {
    centered(
        if installed {
            "Yes"@
        } else {
            "No"@
        },
        11,
    ) + "|  "@ + left_aligned(name, 38) + "|  "@ + left_aligned(version, 43)
}

/// Appends `n` copies of the one character of `unit`.
fn push_repeated(out: &mut String, unit: &str, n: usize)
    requires
        unit@.len() == 1,
    ensures
        final(out)@ == old(out)@ + repeated(unit@[0], n as nat),
{
    let mut i: usize = 0;
    while i < n
        invariant
            i <= n,
            unit@.len() == 1,
            out@ == old(out)@ + repeated(unit@[0], i as nat),
        decreases n - i,
    {
        out.append(unit);
        proof {
            assert(unit@ =~= seq![unit@[0]]);
            assert(repeated(unit@[0], i as nat) + unit@ =~= repeated(unit@[0], (i + 1) as nat));
            assert(out@ =~= old(out)@ + repeated(unit@[0], (i + 1) as nat));
        }
        i = i + 1;
    }
}

/// Appends `s` centred in `width` characters.
fn push_centered(out: &mut String, s: &str, width: usize)
    ensures
        final(out)@ == old(out)@ + centered(s@, width as nat),
{
    let len = s.unicode_len();
    proof {
        reveal_strlit(" ");
    }
    if len >= width {
        out.append(s);
    } else {
        let pad = width - len;
        push_repeated(out, " ", pad / 2);
        out.append(s);
        push_repeated(out, " ", pad - pad / 2);
        proof {
            assert(out@ =~= old(out)@ + centered(s@, width as nat));
        }
    }
}

/// Appends `s` followed by spaces up to `width` characters.
fn push_left_aligned(out: &mut String, s: &str, width: usize)
    ensures
        final(out)@ == old(out)@ + left_aligned(s@, width as nat),
{
    let len = s.unicode_len();
    proof {
        reveal_strlit(" ");
    }
    out.append(s);
    if len < width {
        push_repeated(out, " ", width - len);
        proof {
            assert(out@ =~= old(out)@ + left_aligned(s@, width as nat));
        }
    } else {
        proof {
            assert(out@ =~= old(out)@ + left_aligned(s@, width as nat));
        }
    }
}

/// The head of the table that `list` prints.
pub fn list_header() -> (r: String)
    ensures
        r@ == header_line(),
{
    let mut r = String::new();
    push_centered(&mut r, "Installed", 11);
    r.append("|");
    push_centered(&mut r, "Name", 40);
    r.append("|");
    push_centered(&mut r, "Version", 45);
    proof {
        assert(r@ =~= header_line());
    }
    r
}

/// The line under the head of the table that `list` prints.
pub fn list_rule() -> (r: String)
    ensures
        r@ == rule_line(),
{
    proof {
        reveal_strlit("-");
    }
    let mut r = String::new();
    push_repeated(&mut r, "-", 11);
    r.append("|");
    push_repeated(&mut r, "-", 40);
    r.append("|");
    push_repeated(&mut r, "-", 45);
    proof {
        assert(r@ =~= rule_line());
    }
    r
}

/// The line of the table that `list` prints for one plug-in.
pub fn list_row(installed: bool, name: &str, version: &str) -> (r: String)
    ensures
        r@ == row_line(installed, name@, version@),
{
    let mut r = String::new();
    if installed {
        push_centered(&mut r, "Yes", 11);
    } else {
        push_centered(&mut r, "No", 11);
    }
    r.append("|  ");
    push_left_aligned(&mut r, name, 38);
    r.append("|  ");
    push_left_aligned(&mut r, version, 43);
    proof {
        assert(r@ =~= row_line(installed, name@, version@));
    }
    r
}

} // verus!
