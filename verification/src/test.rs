//! The test sidecar format: the first line is the expected exit code, and
//! the following lines belong to the expected standard output or, after an
//! `err:` directive, to the expected standard error (`out:` switches back).

use vstd::prelude::*;
use vstd::string::StrSliceExecFns;

use crate::numfmt::{dec_body, digits_val, is_digit, parse_u32, parse_u32_spec};
use crate::strutil::str_eq;

verus! {

/// What a test expects of the program: its exit code and its two streams,
/// line by line.
pub struct TestFile {
    pub exit_code: i32,
    pub stdout: Vec<String>,
    pub stderr: Vec<String>,
}

/// The mathematical value of a [`TestFile`].
#[verifier::ext_equal]
pub ghost struct TestFileV {
    pub exit_code: int,
    pub stdout: Seq<Seq<char>>,
    pub stderr: Seq<Seq<char>>,
}

impl DeepView for TestFile {
    type V = TestFileV;

    open spec fn deep_view(&self) -> TestFileV {
        TestFileV {
            exit_code: self.exit_code as int,
            stdout: self.stdout.deep_view(),
            stderr: self.stderr.deep_view(),
        }
    }
}

/// What parsing `s` as a signed 32-bit decimal integer yields.
pub open spec fn parse_i32_spec(s: Seq<char>) -> Option<i32> {
    if s.len() > 0 && s[0] == '-' {
        let body = s.skip(1);
        if body.len() > 0 && (forall|i: int| 0 <= i < body.len() ==> is_digit(body[i]))
            && digits_val(body) <= 0x8000_0000 {
            Some((-digits_val(body)) as i32)
        } else {
            None
        }
    } else {
        match parse_u32_spec(s) {
            Some(v) => if v <= i32::MAX as u32 {
                Some(v as i32)
            } else {
                None
            },
            None => None,
        }
    }
}

/// Parses a signed 32-bit decimal integer: an optional sign, then digits.
pub fn parse_i32(s: &str) -> (r: Option<i32>)
    ensures
        r == parse_i32_spec(s@),
{
    let n = s.unicode_len();
    if n > 0 && s.get_char(0) == '-' {
        if n == 1 {
            return None;
        }
        if s.get_char(1) == '+' {
            proof {
                assert(!is_digit(s@.skip(1)[0]));
            }
            return None;
        }
        let rest = s.substring_char(1, n);
        proof {
            assert(rest@ =~= s@.skip(1));
            assert(dec_body(rest@) =~= rest@);
        }
        match parse_u32(rest) {
            Some(v) => {
                proof {
                    crate::numfmt::lemma_digits_val_bounds(s@.skip(1));
                    assert(v == digits_val(s@.skip(1)));
                }
                if v <= 0x8000_0000u32 - 1 {
                    proof {
                        assert(parse_i32_spec(s@) == Some((-digits_val(s@.skip(1))) as i32));
                        assert((-digits_val(s@.skip(1))) as i32 == -(v as i32));
                    }
                    Some(-(v as i32))
                } else if v == 0x8000_0000u32 {
                    proof {
                        assert(parse_i32_spec(s@) == Some((-digits_val(s@.skip(1))) as i32));
                        assert((-digits_val(s@.skip(1))) as i32 == i32::MIN);
                    }
                    Some(i32::MIN)
                } else {
                    proof {
                        assert(parse_i32_spec(s@) is None);
                    }
                    None
                }
            },
            None => {
                proof {
                    assert(parse_i32_spec(s@) is None);
                }
                None
            },
        }
    } else {
        match parse_u32(s) {
            Some(v) => {
                if v <= 0x7FFF_FFFFu32 {
                    proof {
                        assert(parse_i32_spec(s@) == Some((v as u32) as i32));
                    }
                    Some(v as i32)
                } else {
                    proof {
                        assert(parse_i32_spec(s@) is None);
                    }
                    None
                }
            },
            None => {
                proof {
                    assert(parse_i32_spec(s@) is None);
                }
                None
            },
        }
    }
}

/// The lines of the sidecar after the exit code, folded into the two
/// expected streams: `out:` and `err:` switch, every other line belongs to
/// the stream selected last (standard output at first).
pub open spec fn sidecar_streams(
    lines: Seq<Seq<char>>,
    i: int,
    to_out: bool,
    outs: Seq<Seq<char>>,
    errs: Seq<Seq<char>>,
) -> (Seq<Seq<char>>, Seq<Seq<char>>)
    decreases lines.len() - i,
{
    if i < 0 || i >= lines.len() {
        (outs, errs)
    } else if lines[i] == "out:"@ {
        sidecar_streams(lines, i + 1, true, outs, errs)
    } else if lines[i] == "err:"@ {
        sidecar_streams(lines, i + 1, false, outs, errs)
    } else if to_out {
        sidecar_streams(lines, i + 1, to_out, outs.push(lines[i]), errs)
    } else {
        sidecar_streams(lines, i + 1, to_out, outs, errs.push(lines[i]))
    }
}

/// What parsing a sidecar file yields: `None` when the first line is
/// missing or is not a decimal exit code.
pub open spec fn parse_test_file_spec(lines: Seq<Seq<char>>) -> Option<TestFileV> {
    if lines.len() == 0 {
        None
    } else {
        match parse_i32_spec(lines[0]) {
            None => None,
            Some(code) => {
                let streams = sidecar_streams(lines, 1, true, Seq::empty(), Seq::empty());
                Some(TestFileV { exit_code: code as int, stdout: streams.0, stderr: streams.1 })
            },
        }
    }
}

/// Parses a test sidecar's lines.
pub fn parse_test_file(lines: &Vec<String>) -> (r: Option<TestFile>)
    ensures
        match r {
            Some(tf) => parse_test_file_spec(lines.deep_view()) == Some(tf.deep_view()),
            None => parse_test_file_spec(lines.deep_view()) is None,
        },
{
    let ghost lv = lines.deep_view();
    if lines.len() == 0 {
        return None;
    }
    let code = match parse_i32(lines[0].as_str()) {
        Some(c) => c,
        None => {
            return None;
        },
    };
    let mut outs: Vec<String> = Vec::new();
    let mut errs: Vec<String> = Vec::new();
    let mut to_out: bool = true;
    let mut i: usize = 1;
    proof {
        assert(outs.deep_view() =~= Seq::<Seq<char>>::empty());
        assert(errs.deep_view() =~= Seq::<Seq<char>>::empty());
    }
    while i < lines.len()
        invariant
            1 <= i <= lv.len(),
            lv == lines.deep_view(),
            sidecar_streams(lv, 1, true, Seq::empty(), Seq::empty()) == sidecar_streams(
                lv,
                i as int,
                to_out,
                outs.deep_view(),
                errs.deep_view(),
            ),
        decreases lv.len() - i,
    {
        let line = &lines[i];
        proof {
            assert(line@ == lv[i as int]);
        }
        if str_eq(line.as_str(), "out:") {
            to_out = true;
        } else if str_eq(line.as_str(), "err:") {
            to_out = false;
        } else if to_out {
            let ghost pre = outs.deep_view();
            outs.push(line.clone());
            proof {
                assert(outs.deep_view() =~= pre.push(lv[i as int]));
            }
        } else {
            let ghost pre = errs.deep_view();
            errs.push(line.clone());
            proof {
                assert(errs.deep_view() =~= pre.push(lv[i as int]));
            }
        }
        i += 1;
    }
    Some(TestFile { exit_code: code, stdout: outs, stderr: errs })
}

/// Compares a stream's expected lines with the lines that were produced.
pub fn test_text_output(expected: &Vec<String>, actual: &Vec<String>) -> (r: bool)
    ensures
        r == (expected.deep_view() == actual.deep_view()),
{
    if expected.len() != actual.len() {
        proof {
            assert(expected.deep_view().len() != actual.deep_view().len());
        }
        return false;
    }
    let n = expected.len();
    let mut i: usize = 0;
    while i < n
        invariant
            i <= n,
            n == expected@.len(),
            n == actual@.len(),
            forall|j: int| 0 <= j < i ==> expected.deep_view()[j] == actual.deep_view()[j],
        decreases n - i,
    {
        if !str_eq(expected[i].as_str(), actual[i].as_str()) {
            proof {
                assert(expected.deep_view()[i as int] != actual.deep_view()[i as int]);
            }
            return false;
        }
        i += 1;
    }
    proof {
        assert(expected.deep_view() =~= actual.deep_view());
    }
    true
}

} // verus!
