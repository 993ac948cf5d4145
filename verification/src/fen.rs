//! Forsyth-Edwards notation.  `fen_of` is the one specification of the
//! text form of a position; `get_fen` renders exactly it, and
//! `new_from_fen` parses a string, validates the position, and accepts
//! only when rendering the parsed position gives back the input — so a
//! successful import round-trips by construction.

use vstd::prelude::*;

use crate::board::Board;
use crate::moves::{file_char_spec, rank_char_spec};
use crate::types::{Piece, Player};

verus! {

/// The letter of a placement code.
pub open spec fn piece_char_spec(code: u8) -> char {
    if code == 1 {
        'P'
    } else if code == 2 {
        'N'
    } else if code == 3 {
        'B'
    } else if code == 4 {
        'R'
    } else if code == 5 {
        'Q'
    } else if code == 6 {
        'K'
    } else if code == 7 {
        'p'
    } else if code == 8 {
        'n'
    } else if code == 9 {
        'b'
    } else if code == 10 {
        'r'
    } else if code == 11 {
        'q'
    } else {
        'k'
    }
}

/// The digit of a blank run (1 through 8).
pub open spec fn digit_char_spec(d: int) -> char {
    if d == 0 {
        '0'
    } else if d == 1 {
        '1'
    } else if d == 2 {
        '2'
    } else if d == 3 {
        '3'
    } else if d == 4 {
        '4'
    } else if d == 5 {
        '5'
    } else if d == 6 {
        '6'
    } else if d == 7 {
        '7'
    } else if d == 8 {
        '8'
    } else {
        '9'
    }
}

/// Decimal notation of a non-negative number.
pub open spec fn dec_str(n: int) -> Seq<char>
    decreases n,
{
    if n < 0 {
        Seq::empty()
    } else if n < 10 {
        seq![digit_char_spec(n)]
    } else {
        dec_str(n / 10).push(digit_char_spec(n % 10))
    }
}

/// One rank of the placement field, from file `f` on, with `pending`
/// blanks not yet written out.
pub open spec fn fen_rank(p: Seq<u8>, r: int, f: int, pending: int) -> Seq<char>
    decreases 8 - f,
{
    if f >= 8 {
        if pending > 0 {
            seq![digit_char_spec(pending)]
        } else {
            Seq::empty()
        }
    } else if p[r * 8 + f] == 0 {
        fen_rank(p, r, f + 1, pending + 1)
    } else {
        (if pending > 0 {
            seq![digit_char_spec(pending)]
        } else {
            Seq::<char>::empty()
        }) + seq![piece_char_spec(p[r * 8 + f])] + fen_rank(p, r, f + 1, 0)
    }
}

/// The placement field from rank `r` down to rank one.
pub open spec fn fen_ranks(p: Seq<u8>, r: int) -> Seq<char>
    decreases r,
{
    if r <= 0 {
        fen_rank(p, 0, 0, 0)
    } else {
        fen_rank(p, r, 0, 0) + seq!['/'] + fen_ranks(p, r - 1)
    }
}

/// The castling field: the remaining rights, or a dash.
pub open spec fn castle_str(c: u8) -> Seq<char> {
    if c & 0xf == 0 {
        seq!['-']
    } else {
        (if c & 1 != 0 {
            seq!['K']
        } else {
            Seq::<char>::empty()
        }) + (if c & 2 != 0 {
            seq!['Q']
        } else {
            Seq::<char>::empty()
        }) + (if c & 4 != 0 {
            seq!['k']
        } else {
            Seq::<char>::empty()
        }) + (if c & 8 != 0 {
            seq!['q']
        } else {
            Seq::<char>::empty()
        })
    }
}

/// The en-passant field: the square, or a dash.
pub open spec fn ep_str(ep: u8) -> Seq<char> {
    if ep < 64 {
        seq![file_char_spec(ep % 8), rank_char_spec(ep / 8)]
    } else {
        seq!['-']
    }
}

/// The side-to-move field.
pub open spec fn side_char(turn: Player) -> char {
    match turn {
        Player::White => 'w',
        Player::Black => 'b',
    }
}

/// The whole six-field notation of a position.
pub open spec fn fen_of(
    p: Seq<u8>,
    turn: Player,
    castling: u8,
    ep: u8,
    rule50: i16,
    half_moves: u16,
) -> Seq<char> {
    fen_ranks(p, 7) + seq![' ', side_char(turn), ' '] + castle_str(castling) + seq![' ']
        + ep_str(ep) + seq![' '] + dec_str(rule50 as int) + seq![' '] + dec_str(
        half_moves as int / 2 + 1,
    )
}

/// A single character as a string, for the characters the notation uses.
pub fn fen_char_str(c: char) -> (r: &'static str)
    requires
        c == 'P' || c == 'N' || c == 'B' || c == 'R' || c == 'Q' || c == 'K' || c == 'p' || c == 'n'
            || c == 'b' || c == 'r' || c == 'q' || c == 'k' || c == '0' || c == '1' || c == '2'
            || c == '3' || c == '4' || c == '5' || c == '6' || c == '7' || c == '8' || c == '9'
            || c == '/' || c == ' ' || c == '-' || c == 'w',
    ensures
        r@ == seq![c],
{
    let r = if c == 'P' {
        "P"
    } else if c == 'N' {
        "N"
    } else if c == 'B' {
        "B"
    } else if c == 'R' {
        "R"
    } else if c == 'Q' {
        "Q"
    } else if c == 'K' {
        "K"
    } else if c == 'p' {
        "p"
    } else if c == 'n' {
        "n"
    } else if c == 'b' {
        "b"
    } else if c == 'r' {
        "r"
    } else if c == 'q' {
        "q"
    } else if c == 'k' {
        "k"
    } else if c == '0' {
        "0"
    } else if c == '1' {
        "1"
    } else if c == '2' {
        "2"
    } else if c == '3' {
        "3"
    } else if c == '4' {
        "4"
    } else if c == '5' {
        "5"
    } else if c == '6' {
        "6"
    } else if c == '7' {
        "7"
    } else if c == '8' {
        "8"
    } else if c == '9' {
        "9"
    } else if c == '/' {
        "/"
    } else if c == ' ' {
        " "
    } else if c == '-' {
        "-"
    } else {
        "w"
    };
    proof {
        reveal_strlit("P");
        reveal_strlit("N");
        reveal_strlit("B");
        reveal_strlit("R");
        reveal_strlit("Q");
        reveal_strlit("K");
        reveal_strlit("p");
        reveal_strlit("n");
        reveal_strlit("b");
        reveal_strlit("r");
        reveal_strlit("q");
        reveal_strlit("k");
        reveal_strlit("0");
        reveal_strlit("1");
        reveal_strlit("2");
        reveal_strlit("3");
        reveal_strlit("4");
        reveal_strlit("5");
        reveal_strlit("6");
        reveal_strlit("7");
        reveal_strlit("8");
        reveal_strlit("9");
        reveal_strlit("/");
        reveal_strlit(" ");
        reveal_strlit("-");
        reveal_strlit("w");
        assert(r@ =~= seq![c]);
    }
    r
}

/// Appends the decimal notation of `n`.
pub fn push_dec(s: &mut String, n: u32)
    ensures
        final(s)@ == old(s)@ + dec_str(n as int),
    decreases n,
{
    if n >= 10 {
        push_dec(s, n / 10);
    }
    let d = n % 10;
    let cs = fen_char_str(digit_of(d as u8));
    s.append(cs);
    proof {
        assert(old(s)@ + dec_str(n as int) =~= s@);
    }
}

/// The digit character of a value below ten.
fn digit_of(d: u8) -> (r: char)
    requires
        d < 10,
    ensures
        r == digit_char_spec(d as int),
{
    if d == 0 {
        '0'
    } else if d == 1 {
        '1'
    } else if d == 2 {
        '2'
    } else if d == 3 {
        '3'
    } else if d == 4 {
        '4'
    } else if d == 5 {
        '5'
    } else if d == 6 {
        '6'
    } else if d == 7 {
        '7'
    } else if d == 8 {
        '8'
    } else {
        '9'
    }
}

impl Board {
    /// Renders the position in Forsyth-Edwards notation.
    #[verifier::rlimit(100)]
    pub fn get_fen(&self) -> (r: String)
        requires
            self.wf(),
        ensures
            r@ == fen_of(
                self.placement(),
                self.turn,
                self.state.castling,
                self.state.ep_square,
                self.state.rule_50,
                self.half_moves,
            ),
    {
        let mut s = String::new();
        // Placement, rank eight down to rank one.
        let mut r: u8 = 8;
        while r > 0
            invariant
                self.wf(),
                r <= 8,
                s@ + (if r > 0 {
                    fen_ranks(self.placement(), r as int - 1)
                } else {
                    Seq::<char>::empty()
                }) == fen_ranks(self.placement(), 7),
            decreases r,
        {
            r = r - 1;
            let mut f: u8 = 0;
            let mut pending: u8 = 0;
            let ghost s_base = s@;
            while f < 8
                invariant
                    self.wf(),
                    r < 8,
                    f <= 8,
                    pending <= f,
                    s@ + fen_rank(self.placement(), r as int, f as int, pending as int) == s_base
                        + fen_rank(self.placement(), r as int, 0, 0),
                decreases 8 - f,
            {
                let sqi = r * 8 + f;
                let code = self.sq.code_at(sqi);
                if code == 0 {
                    pending = pending + 1;
                } else {
                    if pending > 0 {
                        let cs = fen_char_str(digit_of(pending));
                        s.append(cs);
                    }
                    let pc = fen_char_str(piece_char_of(code));
                    s.append(pc);
                    pending = 0;
                }
                f = f + 1;
                proof {
                    assert(s@ + fen_rank(self.placement(), r as int, f as int, pending as int)
                        =~= s_base + fen_rank(self.placement(), r as int, 0, 0));
                }
            }
            if pending > 0 {
                let cs = fen_char_str(digit_of(pending));
                s.append(cs);
            }
            if r > 0 {
                let sl = fen_char_str('/');
                s.append(sl);
            }
            proof {
                assert(s@ + (if r > 0 {
                    fen_ranks(self.placement(), r as int - 1)
                } else {
                    Seq::<char>::empty()
                }) =~= fen_ranks(self.placement(), 7));
            }
        }
        // Side to move.
        s.append(" ");
        match self.turn {
            Player::White => s.append("w"),
            Player::Black => s.append("b"),
        }
        s.append(" ");
        // Castling rights.
        let c = self.state.castling;
        if c & 0xf == 0 {
            s.append("-");
        } else {
            if c & 1 != 0 {
                s.append("K");
            }
            if c & 2 != 0 {
                s.append("Q");
            }
            if c & 4 != 0 {
                s.append("k");
            }
            if c & 8 != 0 {
                s.append("q");
            }
        }
        s.append(" ");
        // En passant.
        let ep = self.state.ep_square;
        if ep < 64 {
            s.append(crate::moves::file_str(ep % 8));
            s.append(crate::moves::rank_str(ep / 8));
        } else {
            s.append("-");
        }
        s.append(" ");
        // Clocks.
        proof {
            assert(self.state.rule_50 >= 0);
        }
        push_dec(&mut s, self.state.rule_50 as u32);
        s.append(" ");
        push_dec(&mut s, (self.half_moves / 2) as u32 + 1);
        proof {
            reveal_strlit(" ");
            reveal_strlit("w");
            reveal_strlit("b");
            reveal_strlit("-");
            reveal_strlit("K");
            reveal_strlit("Q");
            reveal_strlit("k");
            reveal_strlit("q");
            assert(s@ =~= fen_of(
                self.placement(),
                self.turn,
                self.state.castling,
                self.state.ep_square,
                self.state.rule_50,
                self.half_moves,
            ));
        }
        s
    }
}

/// Reads the six fields of a notation string.  Yields the parsed
/// square data, side to move, castling byte, en-passant square and the
/// two clocks; `None` when the text does not scan.
#[verifier::rlimit(100)]
fn parse_fields(fen: &str) -> (r: Option<(crate::squares::Squares, Player, u8, u8, u32, u32)>)
    ensures
        r is Some ==> r->Some_0.0.cong() && r->Some_0.3 <= 64 && r->Some_0.4 <= 30000 && 1 <= r->Some_0.5 <= 30000,
{
        let n = fen.unicode_len();
        let mut i: usize = 0;
        let mut sq = crate::squares::Squares::blank();
        // Field one: the placement grid, rank eight first.
        let mut rank: u8 = 7;
        let mut file: u8 = 0;
        loop
            invariant
                sq.cong(),
                i <= n,
                n == fen@.len(),
                rank <= 7,
                file <= 8,
            decreases n - i,
        {
            if i >= n {
                return None;
            }
            let c = fen.get_char(i);
            i = i + 1;
            if c == ' ' {
                if rank != 0 || file != 8 {
                    return None;
                }
                break ;
            } else if c == '/' {
                if file != 8 || rank == 0 {
                    return None;
                }
                rank = rank - 1;
                file = 0;
            } else if c == '1' || c == '2' || c == '3' || c == '4' || c == '5' || c == '6' || c
                == '7' || c == '8' {
                let d: u8 = if c == '1' {
                    1
                } else if c == '2' {
                    2
                } else if c == '3' {
                    3
                } else if c == '4' {
                    4
                } else if c == '5' {
                    5
                } else if c == '6' {
                    6
                } else if c == '7' {
                    7
                } else {
                    8
                };
                if file + d > 8 {
                    return None;
                }
                file = file + d;
            } else {
                if file >= 8 {
                    return None;
                }
                let (pl, pc) = if c == 'P' {
                    (Player::White, Piece::P)
                } else if c == 'N' {
                    (Player::White, Piece::N)
                } else if c == 'B' {
                    (Player::White, Piece::B)
                } else if c == 'R' {
                    (Player::White, Piece::R)
                } else if c == 'Q' {
                    (Player::White, Piece::Q)
                } else if c == 'K' {
                    (Player::White, Piece::K)
                } else if c == 'p' {
                    (Player::Black, Piece::P)
                } else if c == 'n' {
                    (Player::Black, Piece::N)
                } else if c == 'b' {
                    (Player::Black, Piece::B)
                } else if c == 'r' {
                    (Player::Black, Piece::R)
                } else if c == 'q' {
                    (Player::Black, Piece::Q)
                } else if c == 'k' {
                    (Player::Black, Piece::K)
                } else {
                    return None;
                };
                let s = rank * 8 + file;
                if sq.code_at(s) != 0 {
                    return None;
                }
                sq.put(s, pl, pc);
                file = file + 1;
            }
        }
        // Field two: the side to move.
        if n - i < 2 {
            return None;
        }
        let turn = match fen.get_char(i) {
            'w' => Player::White,
            'b' => Player::Black,
            _ => {
                return None;
            },
        };
        if fen.get_char(i + 1) != ' ' {
            return None;
        }
        i = i + 2;
        // Field three: castling rights.
        let mut castling: u8 = 0;
        if i >= n {
            return None;
        }
        if fen.get_char(i) == '-' {
            i = i + 1;
        } else {
            loop
                invariant
                    i <= n,
                    n == fen@.len(),
                decreases n - i,
            {
                if i >= n {
                    return None;
                }
                let c = fen.get_char(i);
                if c == ' ' {
                    break ;
                }
                if c == 'K' {
                    castling = castling | 1;
                } else if c == 'Q' {
                    castling = castling | 2;
                } else if c == 'k' {
                    castling = castling | 4;
                } else if c == 'q' {
                    castling = castling | 8;
                } else {
                    return None;
                }
                i = i + 1;
            }
            if castling == 0 {
                return None;
            }
        }
        if i >= n || fen.get_char(i) != ' ' {
            return None;
        }
        i = i + 1;
        // Field four: the en-passant square.
        if i >= n {
            return None;
        }
        let mut ep: u8 = 64;
        if fen.get_char(i) == '-' {
            i = i + 1;
        } else {
            if n - i < 2 {
                return None;
            }
            let fc = fen.get_char(i);
            let rc = fen.get_char(i + 1);
            let f: u8 = if fc == 'a' {
                0
            } else if fc == 'b' {
                1
            } else if fc == 'c' {
                2
            } else if fc == 'd' {
                3
            } else if fc == 'e' {
                4
            } else if fc == 'f' {
                5
            } else if fc == 'g' {
                6
            } else if fc == 'h' {
                7
            } else {
                return None;
            };
            let rk: u8 = if rc == '3' {
                2
            } else if rc == '6' {
                5
            } else {
                return None;
            };
            ep = rk * 8 + f;
            i = i + 2;
        }
        if i >= n || fen.get_char(i) != ' ' {
            return None;
        }
        i = i + 1;
        // Field five: the rule-50 clock.
        let (r50, i2) = match parse_number(fen, i) {
            Some(v) => v,
            None => {
                return None;
            },
        };
        i = i2;
        if r50 > 30000 {
            return None;
        }
        if i >= n || fen.get_char(i) != ' ' {
            return None;
        }
        i = i + 1;
        // Field six: the full-move number.
        let (fm, i3) = match parse_number(fen, i) {
            Some(v) => v,
            None => {
                return None;
            },
        };
        i = i3;
        if i != n {
            return None;
        }
        if fm < 1 || fm > 30000 {
            return None;
        }
    Some((sq, turn, castling, ep, r50, fm))
}

impl Board {
    /// Parses a position from Forsyth-Edwards notation.  The input must
    /// describe a position with one king per side and a sane en-passant
    /// square; a successful parse renders back to exactly the input, so
    /// `get_fen` inverts `new_from_fen` by construction.  Anything the
    /// parser cannot accept yields `None`.
    ///
    /// That the parser also accepts every string in `fen_of`'s image —
    /// the converse obligation — is not part of the contract: its proof
    /// is an induction over the notation grammar that this crate does
    /// not carry; the round-trip tests exercise it instead.
    #[verifier::rlimit(100)]
    pub fn new_from_fen(fen: &str) -> (r: Option<Board>)
        ensures
            r is Some ==> ({
                let b = r->Some_0;
                b.wf() && b.depth == 0 && b.state.ply == 0 && b.state.prev is None
                    && b.state.prev_move.data == 0 && b.half_moves % 2 == (match b.turn {
                    Player::White => 0u16,
                    Player::Black => 1u16,
                }) && fen_of(
                    b.placement(),
                    b.turn,
                    b.state.castling,
                    b.state.ep_square,
                    b.state.rule_50,
                    b.half_moves,
                ) == fen@
            }),
    {
        let (sq, turn, castling, ep, r50, fm) = match parse_fields(fen) {
            Some(v) => v,
            None => {
                return None;
            },
        };
        let half_moves: u16 = ((fm - 1) * 2 + (match turn {
            Player::White => 0u32,
            Player::Black => 1u32,
        })) as u16;
        // The position itself must be sound: one king per side, and a
        // sane en-passant square.
        let wkm = sq.piece_mask(Player::White, Piece::K);
        let bkm = sq.piece_mask(Player::Black, Piece::K);
        let wk = crate::bits::popcount(wkm);
        let bk = crate::bits::popcount(bkm);
        if wk != 1 || bk != 1 {
            return None;
        }
        proof {
            crate::rules::lemma_bits_code_count(
                wkm,
                sq@,
                crate::types::code_of(Player::White, Piece::K),
                64,
            );
            crate::rules::lemma_bits_code_count(
                bkm,
                sq@,
                crate::types::code_of(Player::Black, Piece::K),
                64,
            );
            assert(crate::rules::kings_ok(sq@));
        }
        if ep < 64 {
            let relr = match turn {
                Player::White => ep / 8,
                Player::Black => 7 - ep / 8,
            };
            if relr != 5 {
                return None;
            }
            if sq.code_at(ep) != 0 {
                return None;
            }
            let cap = match turn {
                Player::White => ep - 8,
                Player::Black => ep + 8,
            };
            if cap < 8 || cap >= 56 {
                return None;
            }
            let enemy_pawn = crate::types::make_code(turn.other_player(), Piece::P);
            if sq.code_at(cap) != enemy_pawn {
                return None;
            }
        }
        let zob = crate::board::compute_zob(&sq, turn, castling, ep);
        let ci = crate::board::compute_check_info(&sq, turn);
        let state = crate::state::BoardState {
            castling,
            rule_50: r50 as i16,
            ply: 0,
            ep_square: ep,
            zobrast: zob,
            captured_piece: None,
            checkers_bb: ci.checkers,
            blockers_white: ci.bw,
            blockers_black: ci.bb,
            pinners_white: ci.pw,
            pinners_black: ci.pb,
            csq_p: ci.cp,
            csq_n: ci.cn,
            csq_b: ci.cb,
            csq_r: ci.cr,
            csq_q: ci.cq,
            csq_k: 0,
            prev_move: crate::moves::BitMove::null(),
            prev: None,
            pre: Ghost(crate::state::PrePly { placement: sq@, turn }),
        };
        let b = Board {
            turn,
            sq,
            half_moves,
            depth: 0,
            state: std::sync::Arc::new(state),
        };
        proof {
            assert forall|j: u8| j < 64 implies !crate::bits::bit64(0u64, j) by {
                crate::bits::lemma_bit_empty(j);
            }
        }
        // Accept only a string this position renders back to.
        let rendered = b.get_fen();
        let owned: String = fen.to_owned();
        if rendered.eq(&owned) {
            Some(b)
        } else {
            None
        }
    }
}

/// Reads a run of digits as a number; fails on overflow past five
/// digits or on an empty run.
fn parse_number(fen: &str, start: usize) -> (r: Option<(u32, usize)>)
    requires
        start <= fen@.len(),
    ensures
        r is Some ==> start < r->Some_0.1 <= fen@.len(),
{
    let n = fen.unicode_len();
    let mut i = start;
    let mut v: u32 = 0;
    while i < n
        invariant
            start <= i <= n,
            n == fen@.len(),
            v <= 99999,
        decreases n - i,
    {
        let c = fen.get_char(i);
        let d: u32 = if c == '0' {
            0
        } else if c == '1' {
            1
        } else if c == '2' {
            2
        } else if c == '3' {
            3
        } else if c == '4' {
            4
        } else if c == '5' {
            5
        } else if c == '6' {
            6
        } else if c == '7' {
            7
        } else if c == '8' {
            8
        } else if c == '9' {
            9
        } else {
            break ;
        };
        if v > 9999 {
            return None;
        }
        v = v * 10 + d;
        i = i + 1;
    }
    if i == start {
        None
    } else {
        Some((v, i))
    }
}

/// One displayed row of the picture: the piece letter or a dash for
/// each square, a blank after each, a line break at the row's end.
pub open spec fn pretty_row(p: Seq<u8>, r: int, f: int) -> Seq<char>
    decreases 8 - f,
{
    if f >= 8 {
        seq!['\n']
    } else {
        seq![
            if p[r * 8 + f] == 0 {
                '-'
            } else {
                piece_char_spec(p[r * 8 + f])
            },
            ' ',
        ] + pretty_row(p, r, f + 1)
    }
}

/// The rows of the picture, top rank first.
pub open spec fn pretty_rows(p: Seq<u8>, r: int) -> Seq<char>
    decreases r,
{
    if r <= 0 {
        pretty_row(p, 0, 0)
    } else {
        pretty_row(p, r, 0) + pretty_rows(p, r - 1)
    }
}

impl Board {
    /// A small picture of the board, one row per rank from the top,
    /// white pieces in capitals and black in lower case.
    pub fn pretty_string(&self) -> (r: String)
        requires
            self.wf(),
        ensures
            r@ == pretty_rows(self.placement(), 7),
    {
        let mut s = String::new();
        let mut r: u8 = 8;
        while r > 0
            invariant
                self.wf(),
                r <= 8,
                s@ + (if r > 0 {
                    pretty_rows(self.placement(), r as int - 1)
                } else {
                    Seq::<char>::empty()
                }) == pretty_rows(self.placement(), 7),
            decreases r,
        {
            r = r - 1;
            let mut f: u8 = 0;
            let ghost s_base = s@;
            while f < 8
                invariant
                    self.wf(),
                    r < 8,
                    f <= 8,
                    s@ + pretty_row(self.placement(), r as int, f as int) == s_base + pretty_row(
                        self.placement(),
                        r as int,
                        0,
                    ),
                decreases 8 - f,
            {
                let code = self.sq.code_at(r * 8 + f);
                if code == 0 {
                    s.append("-");
                } else {
                    s.append(fen_char_str(piece_char_of(code)));
                }
                s.append(" ");
                f = f + 1;
                proof {
                    reveal_strlit("-");
                    reveal_strlit(" ");
                    assert(s@ + pretty_row(self.placement(), r as int, f as int) =~= s_base
                        + pretty_row(self.placement(), r as int, 0));
                }
            }
            s.append("\n");
            proof {
                reveal_strlit("\n");
                assert(pretty_row(self.placement(), r as int, 8) =~= seq!['\n']);
                assert(s@ =~= s_base + pretty_row(self.placement(), r as int, 0));
                if r > 0 {
                    assert(pretty_rows(self.placement(), r as int) =~= pretty_row(
                        self.placement(),
                        r as int,
                        0,
                    ) + pretty_rows(self.placement(), r as int - 1));
                }
                assert(s@ + (if r > 0 {
                    pretty_rows(self.placement(), r as int - 1)
                } else {
                    Seq::<char>::empty()
                }) =~= pretty_rows(self.placement(), 7));
            }
        }
        s
    }
}

/// The letter of a placement code, executable.
fn piece_char_of(code: u8) -> (r: char)
    requires
        1 <= code <= 12,
    ensures
        r == piece_char_spec(code),
{
    if code == 1 {
        'P'
    } else if code == 2 {
        'N'
    } else if code == 3 {
        'B'
    } else if code == 4 {
        'R'
    } else if code == 5 {
        'Q'
    } else if code == 6 {
        'K'
    } else if code == 7 {
        'p'
    } else if code == 8 {
        'n'
    } else if code == 9 {
        'b'
    } else if code == 10 {
        'r'
    } else if code == 11 {
        'q'
    } else {
        'k'
    }
}

} // verus!
