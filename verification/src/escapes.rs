use vstd::prelude::*;
use vstd::string::StringExecFns;

verus! {

/// The character a decimal digit prints as.
pub open spec fn digit_char(d: int) -> char {
    if d == 0 {
        '0'
    } else if d == 1 {
        '1'
    } else if d == 2 {
        '2'
    } else if d == 3 {
        '3'
    } else if d == 4 {
        '4'
    } else if d == 5 {
        '5'
    } else if d == 6 {
        '6'
    } else if d == 7 {
        '7'
    } else if d == 8 {
        '8'
    } else {
        '9'
    }
}

/// The decimal rendering of a channel value, without leading zeros.
pub open spec fn dec_of(n: u8) -> Seq<char> {
    if n < 10 {
        seq![digit_char(n as int)]
    } else if n < 100 {
        seq![digit_char(n as int / 10), digit_char(n as int % 10)]
    } else {
        seq![
            digit_char(n as int / 100),
            digit_char((n as int / 10) % 10),
            digit_char(n as int % 10),
        ]
    }
}

/// The reset that follows every colored cell: `ESC [ 0 m`.
pub open spec fn reset_seq() -> Seq<char> {
    seq!['\x1b', '[', '0', 'm']
}

/// The opening of a 24-bit foreground escape: `ESC [ 3 8 ; 2 ;`.
pub open spec fn fg_prefix() -> Seq<char> {
    seq!['\x1b', '[', '3', '8', ';', '2', ';']
}

/// What joins a background onto a foreground escape: `; 4 8 ; 2 ;`.
pub open spec fn bg_infix() -> Seq<char> {
    seq![';', '4', '8', ';', '2', ';']
}

/// Three channel values separated by semicolons.
pub open spec fn color_triple(c: (u8, u8, u8)) -> Seq<char> {
    dec_of(c.0) + seq![';'] + dec_of(c.1) + seq![';'] + dec_of(c.2)
}

/// A complete foreground-only escape sequence.
pub open spec fn fg_escape(fg: (u8, u8, u8)) -> Seq<char> {
    fg_prefix() + color_triple(fg) + seq!['m']
}

/// A single combined foreground-plus-background escape sequence.
pub open spec fn fg_bg_escape(fg: (u8, u8, u8), bg: (u8, u8, u8)) -> Seq<char> {
    fg_prefix() + color_triple(fg) + bg_infix() + color_triple(bg) + seq!['m']
}

fn digit_str(d: u8) -> (r: &'static str)
    requires
        d < 10,
    ensures
        r@ == seq![digit_char(d as int)],
{
    match d {
        0 => {
            proof {
                reveal_strlit("0");
            }
            let r = "0";
            assert(r@ =~= seq![digit_char(d as int)]);
            r
        },
        1 => {
            proof {
                reveal_strlit("1");
            }
            let r = "1";
            assert(r@ =~= seq![digit_char(d as int)]);
            r
        },
        2 => {
            proof {
                reveal_strlit("2");
            }
            let r = "2";
            assert(r@ =~= seq![digit_char(d as int)]);
            r
        },
        3 => {
            proof {
                reveal_strlit("3");
            }
            let r = "3";
            assert(r@ =~= seq![digit_char(d as int)]);
            r
        },
        4 => {
            proof {
                reveal_strlit("4");
            }
            let r = "4";
            assert(r@ =~= seq![digit_char(d as int)]);
            r
        },
        5 => {
            proof {
                reveal_strlit("5");
            }
            let r = "5";
            assert(r@ =~= seq![digit_char(d as int)]);
            r
        },
        6 => {
            proof {
                reveal_strlit("6");
            }
            let r = "6";
            assert(r@ =~= seq![digit_char(d as int)]);
            r
        },
        7 => {
            proof {
                reveal_strlit("7");
            }
            let r = "7";
            assert(r@ =~= seq![digit_char(d as int)]);
            r
        },
        8 => {
            proof {
                reveal_strlit("8");
            }
            let r = "8";
            assert(r@ =~= seq![digit_char(d as int)]);
            r
        },
        _ => {
            proof {
                reveal_strlit("9");
            }
            let r = "9";
            assert(r@ =~= seq![digit_char(d as int)]);
            r
        },
    }
}

/// Appends the decimal rendering of `n`.
pub fn push_dec(line: &mut String, n: u8)
    ensures
        final(line)@ == old(line)@ + dec_of(n),
{
    if n >= 100 {
        line.append(digit_str(n / 100));
        line.append(digit_str((n / 10) % 10));
        line.append(digit_str(n % 10));
        assert(line@ =~= old(line)@ + dec_of(n));
    } else if n >= 10 {
        line.append(digit_str(n / 10));
        line.append(digit_str(n % 10));
        assert(line@ =~= old(line)@ + dec_of(n));
    } else {
        line.append(digit_str(n));
        assert(line@ =~= old(line)@ + dec_of(n));
    }
}

fn push_semicolon(line: &mut String)
    ensures
        final(line)@ == old(line)@ + seq![';'],
{
    proof {
        reveal_strlit(";");
    }
    line.append(";");
    assert(line@ =~= old(line)@ + seq![';']);
}

fn push_color_triple(line: &mut String, c: (u8, u8, u8))
    ensures
        final(line)@ == old(line)@ + color_triple(c),
{
    push_dec(line, c.0);
    push_semicolon(line);
    push_dec(line, c.1);
    push_semicolon(line);
    push_dec(line, c.2);
    assert(line@ =~= old(line)@ + color_triple(c));
}

fn push_fg_prefix(line: &mut String)
    ensures
        final(line)@ == old(line)@ + fg_prefix(),
{
    proof {
        reveal_strlit("\x1b[38;2;");
    }
    line.append("\x1b[38;2;");
    assert(line@ =~= old(line)@ + fg_prefix());
}

fn push_final_m(line: &mut String)
    ensures
        final(line)@ == old(line)@ + seq!['m'],
{
    proof {
        reveal_strlit("m");
    }
    line.append("m");
    assert(line@ =~= old(line)@ + seq!['m']);
}

/// Appends a complete foreground-only escape.
pub fn push_fg_escape(line: &mut String, fg: (u8, u8, u8))
    ensures
        final(line)@ == old(line)@ + fg_escape(fg),
{
    push_fg_prefix(line);
    push_color_triple(line, fg);
    push_final_m(line);
    assert(line@ =~= old(line)@ + fg_escape(fg));
}

/// Appends a single combined foreground-plus-background escape.
pub fn push_fg_bg_escape(line: &mut String, fg: (u8, u8, u8), bg: (u8, u8, u8))
    ensures
        final(line)@ == old(line)@ + fg_bg_escape(fg, bg),
{
    push_fg_prefix(line);
    push_color_triple(line, fg);
    proof {
        reveal_strlit(";48;2;");
    }
    line.append(";48;2;");
    assert(line@ =~= old(line)@ + fg_prefix() + color_triple(fg) + bg_infix());
    push_color_triple(line, bg);
    push_final_m(line);
    assert(line@ =~= old(line)@ + fg_bg_escape(fg, bg));
}

/// Appends the reset escape.
pub fn push_reset(line: &mut String)
    ensures
        final(line)@ == old(line)@ + reset_seq(),
{
    proof {
        reveal_strlit("\x1b[0m");
    }
    line.append("\x1b[0m");
    assert(line@ =~= old(line)@ + reset_seq());
}

} // verus!
