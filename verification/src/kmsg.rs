//! Parsing `/dev/kmsg` frames. A frame is one
//! `priority,sequence,monotonic_us,flag;message` line followed by
//! dictionary lines, each starting with a space and holding `KEY=value`.
//! Only kernel-facility frames are kept.

use vstd::prelude::*;

use crate::strutil::{
    all_digits, dec_val, find_idx, first_idx, parse_u64, split, split_char, substr,
};

verus! {

/// One parsed kmsg frame.
pub struct Kmsg {
    pub severity: u8,
    pub facility: u8,
    pub sequence: u64,
    pub monotonic_us: u64,
    pub flag: char,
    pub msg: String,
    pub dict: Vec<(String, String)>,
}

#[verifier::ext_equal]
pub ghost struct KmsgV {
    pub severity: u8,
    pub facility: u8,
    pub sequence: u64,
    pub monotonic_us: u64,
    pub flag: char,
    pub msg: Seq<char>,
    pub dict: Seq<(Seq<char>, Seq<char>)>,
}

impl View for Kmsg {
    type V = KmsgV;

    open spec fn view(&self) -> KmsgV {
        KmsgV {
            severity: self.severity,
            facility: self.facility,
            sequence: self.sequence,
            monotonic_us: self.monotonic_us,
            flag: self.flag,
            msg: self.msg@,
            dict: crate::strutil::pairs_view(self.dict@),
        }
    }
}

pub open spec fn default_kmsg() -> KmsgV {
    KmsgV {
        severity: 7,
        facility: 0,
        sequence: 0,
        monotonic_us: 0,
        flag: '-',
        msg: Seq::empty(),
        dict: Seq::empty(),
    }
}

/// The header fields and message of the frame's main line, if it is one:
/// a non-empty prefix of at least four comma fields, `;`, a non-empty
/// message.
pub open spec fn parse_main_line(line: Seq<char>) -> Option<KmsgV> {
    let si = first_idx(line, ';');
    if si < 1 {
        None
    } else {
        let msg = line.subrange(si + 1, line.len() as int);
        let entries = split_char(line.subrange(0, si), ',');
        if msg.len() == 0 || entries.len() < 4 {
            None
        } else if !(entries[0].len() > 0 && all_digits(entries[0]) && dec_val(entries[0])
            <= 255) {
            None
        } else if !(entries[1].len() > 0 && all_digits(entries[1]) && dec_val(entries[1])
            <= u64::MAX) {
            None
        } else if !(entries[2].len() > 0 && all_digits(entries[2]) && dec_val(entries[2])
            <= u64::MAX) {
            None
        } else if entries[3].len() != 1 {
            None
        } else {
            let pr = dec_val(entries[0]);
            Some(
                KmsgV {
                    severity: (pr % 8) as u8,
                    facility: (pr / 8) as u8,
                    sequence: dec_val(entries[1]) as u64,
                    monotonic_us: dec_val(entries[2]) as u64,
                    flag: entries[3][0],
                    msg: msg,
                    dict: Seq::empty(),
                },
            )
        }
    }
}

/// The key/value pair of a dictionary line: a leading space, a non-empty
/// key without `=`, `=`, a non-empty value.
pub open spec fn parse_dict_line(line: Seq<char>) -> Option<(Seq<char>, Seq<char>)> {
    if line.len() >= 1 && line[0] == ' ' {
        let rest = line.skip(1);
        let ei = first_idx(rest, '=');
        if ei >= 1 && ei + 1 < rest.len() {
            Some((rest.subrange(0, ei), rest.subrange(ei + 1, rest.len() as int)))
        } else {
            None
        }
    } else {
        None
    }
}

/// Fold the frame's lines: the first main line sets the header and the
/// message, dictionary lines collect into the dictionary.
pub open spec fn scan_lines(lines: Seq<Seq<char>>, parsed: bool, k: KmsgV) -> (bool, KmsgV)
    decreases lines.len(),
{
    if lines.len() == 0 {
        (parsed, k)
    } else if !parsed && parse_main_line(lines[0]) is Some {
        let h = parse_main_line(lines[0])->Some_0;
        scan_lines(
            lines.skip(1),
            true,
            KmsgV {
                severity: h.severity,
                facility: h.facility,
                sequence: h.sequence,
                monotonic_us: h.monotonic_us,
                flag: h.flag,
                msg: h.msg,
                dict: k.dict,
            },
        )
    } else if parse_dict_line(lines[0]) is Some {
        let kv = parse_dict_line(lines[0])->Some_0;
        scan_lines(
            lines.skip(1),
            parsed,
            KmsgV {
                severity: k.severity,
                facility: k.facility,
                sequence: k.sequence,
                monotonic_us: k.monotonic_us,
                flag: k.flag,
                msg: k.msg,
                dict: k.dict.push(kv),
            },
        )
    } else {
        scan_lines(lines.skip(1), parsed, k)
    }
}

/// What `gen_kmsg` returns: the parsed frame when a main line was found
/// and its facility is the kernel's, nothing otherwise.
pub open spec fn gen_kmsg_spec(frame: Seq<char>) -> Option<KmsgV> {
    let r = scan_lines(split_char(frame, '\n'), false, default_kmsg());
    if r.0 && r.1.facility == 0 {
        Some(r.1)
    } else {
        None
    }
}

fn parse_main_exec(line: &str) -> (r: Option<Kmsg>)
    ensures
        match r {
            Some(k) => parse_main_line(line@) == Some(k@) && k@.dict
                == Seq::<(Seq<char>, Seq<char>)>::empty(),
            None => parse_main_line(line@) is None,
        },
{
    let n: usize = line.unicode_len();
    let si = match find_idx(line, ';') {
        Some(i) if i >= 1 => i,
        _ => {
            return None;
        },
    };
    let msg = substr(line, si + 1, n);
    let prefix = substr(line, 0, si);
    let entries = split(prefix.as_str(), ',');
    let ghost evs = entries@.map_values(|e: String| e@);
    if msg.as_str().unicode_len() == 0 || entries.len() < 4 {
        return None;
    }
    proof {
        assert(evs[0] == entries@[0]@);
        assert(evs[1] == entries@[1]@);
        assert(evs[2] == entries@[2]@);
        assert(evs[3] == entries@[3]@);
    }
    let pr = match parse_u64(entries[0].as_str()) {
        Some(v) if v <= 255 => v,
        Some(_) => {
            return None;
        },
        None => {
            return None;
        },
    };
    let sequence = match parse_u64(entries[1].as_str()) {
        Some(v) => v,
        None => {
            return None;
        },
    };
    let monotonic_us = match parse_u64(entries[2].as_str()) {
        Some(v) => v,
        None => {
            return None;
        },
    };
    if entries[3].as_str().unicode_len() != 1 {
        return None;
    }
    let flag = entries[3].as_str().get_char(0);
    let k = Kmsg {
        severity: (pr % 8) as u8,
        facility: (pr / 8) as u8,
        sequence,
        monotonic_us,
        flag,
        msg,
        dict: Vec::new(),
    };
    proof {
        assert(crate::strutil::pairs_view(k.dict@) =~= Seq::<(Seq<char>, Seq<char>)>::empty());
        assert(k@ =~= parse_main_line(line@)->Some_0);
    }
    Some(k)
}

fn parse_dict_exec(line: &str) -> (r: Option<(String, String)>)
    ensures
        match r {
            Some(kv) => parse_dict_line(line@) == Some((kv.0@, kv.1@)),
            None => parse_dict_line(line@) is None,
        },
{
    let n: usize = line.unicode_len();
    if n < 1 || line.get_char(0) != ' ' {
        return None;
    }
    let rest = substr(line, 1, n);
    proof {
        assert(rest@ =~= line@.skip(1));
    }
    let rn: usize = rest.as_str().unicode_len();
    match find_idx(rest.as_str(), '=') {
        Some(ei) if ei >= 1 && ei + 1 < rn => {
            let key = substr(rest.as_str(), 0, ei);
            let val = substr(rest.as_str(), ei + 1, rn);
            Some((key, val))
        },
        _ => None,
    }
}

/// Parse one `/dev/kmsg` frame; see `gen_kmsg_spec`.
pub fn gen_kmsg(frame: &str) -> (r: Option<Kmsg>)
    ensures
        match r {
            Some(k) => gen_kmsg_spec(frame@) == Some(k@),
            None => gen_kmsg_spec(frame@) is None,
        },
{
    let lines = split(frame, '\n');
    let ghost lvs = lines@.map_values(|l: String| l@);
    let n: usize = lines.len();
    let mut parsed = false;
    let mut k = Kmsg {
        severity: 7,
        facility: 0,
        sequence: 0,
        monotonic_us: 0,
        flag: '-',
        msg: String::new(),
        dict: Vec::new(),
    };
    let mut i: usize = 0;
    proof {
        assert(k@ =~= default_kmsg());
        assert(lvs.skip(0) =~= lvs);
    }
    while i < n
        invariant
            0 <= i <= n,
            n == lines@.len(),
            lvs == lines@.map_values(|l: String| l@),
            scan_lines(lvs, false, default_kmsg()) == scan_lines(
                lvs.skip(i as int),
                parsed,
                k@,
            ),
        decreases n - i,
    {
        proof {
            assert(lvs.skip(i as int)[0] == lvs[i as int]);
            assert(lvs[i as int] == lines@[i as int]@);
            assert(lvs.skip(i as int).skip(1) =~= lvs.skip(i as int + 1));
        }
        let ghost kv0 = k@;
        let mut handled = false;
        if !parsed {
            if let Some(mut h) = parse_main_exec(lines[i].as_str()) {
                let Kmsg { dict, .. } = k;
                h.dict = dict;
                k = h;
                parsed = true;
                handled = true;
                proof {
                    let hs = parse_main_line(lvs[i as int])->Some_0;
                    assert(k@ =~= KmsgV {
                        severity: hs.severity,
                        facility: hs.facility,
                        sequence: hs.sequence,
                        monotonic_us: hs.monotonic_us,
                        flag: hs.flag,
                        msg: hs.msg,
                        dict: kv0.dict,
                    });
                }
            }
        }
        if !handled {
            if let Some(kv) = parse_dict_exec(lines[i].as_str()) {
                let ghost dv = crate::strutil::pairs_view(k.dict@);
                k.dict.push(kv);
                proof {
                    assert(k.dict@.drop_last() =~= k.dict@.subrange(
                        0,
                        k.dict@.len() - 1,
                    ));
                    assert forall|t: int|
                        0 <= t < k.dict@.len() implies crate::strutil::pairs_view(
                        k.dict@,
                    )[t] == dv.push(parse_dict_line(lvs[i as int])->Some_0)[t] by {
                        if t < dv.len() {
                            assert(k.dict@[t] == k.dict@.subrange(0, k.dict@.len() - 1)[t]);
                        }
                    }
                    assert(crate::strutil::pairs_view(k.dict@) =~= dv.push(
                        parse_dict_line(lvs[i as int])->Some_0,
                    ));
                    assert(k@ =~= KmsgV {
                        severity: kv0.severity,
                        facility: kv0.facility,
                        sequence: kv0.sequence,
                        monotonic_us: kv0.monotonic_us,
                        flag: kv0.flag,
                        msg: kv0.msg,
                        dict: kv0.dict.push(parse_dict_line(lvs[i as int])->Some_0),
                    });
                }
            }
        }
        i += 1;
    }
    proof {
        assert(lvs.skip(n as int) =~= Seq::<Seq<char>>::empty());
    }
    if parsed && k.facility == 0 {
        Some(k)
    } else {
        None
    }
}

} // verus!
