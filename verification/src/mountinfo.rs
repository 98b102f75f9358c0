//! Parsing `/proc/self/mountinfo`: find the mount point whose source device
//! equals a given block path. One line reads
//! `id parent major:minor root mountpoint options [tags...] - fstype source superopts`,
//! with spaces in paths escaped as three octal digits.

use vstd::prelude::*;

use crate::strutil::{split, split_char, str_eq};
use crate::sysfs::Sysfs;

verus! {

pub open spec fn is_oct(c: char) -> bool {
    '0' <= c && c <= '7'
}

pub open spec fn oct_val(c: char) -> int {
    c as int - '0' as int
}

pub open spec fn oct_char(a: char, b: char, c: char) -> char {
    (((oct_val(a) * 64 + oct_val(b) * 8 + oct_val(c)) % 256) as u8) as char
}

/// Decode `\ooo` octal escapes; anything else passes through.
pub open spec fn unescape_spec(s: Seq<char>) -> Seq<char>
    decreases s.len(),
{
    if s.len() == 0 {
        Seq::empty()
    } else if s[0] == '\\' && s.len() >= 4 && is_oct(s[1]) && is_oct(s[2]) && is_oct(s[3]) {
        seq![oct_char(s[1], s[2], s[3])] + unescape_spec(s.skip(4))
    } else {
        seq![s[0]] + unescape_spec(s.skip(1))
    }
}

fn oct_of(c: char) -> (r: u32)
    requires
        is_oct(c),
    ensures
        r == oct_val(c),
        r <= 7,
{
    (c as u32) - 48
}

pub fn unescape(s: &str) -> (r: String)
    ensures
        r@ == unescape_spec(s@),
{
    let n: usize = s.unicode_len();
    let mut out = String::new();
    let mut i: usize = 0;
    proof {
        assert(s@.skip(0) =~= s@);
        assert(out@ + unescape_spec(s@) =~= unescape_spec(s@));
    }
    while i < n
        invariant
            0 <= i <= n,
            n == s@.len(),
            unescape_spec(s@) == out@ + unescape_spec(s@.skip(i as int)),
        decreases n - i,
    {
        let ghost rem = s@.skip(i as int);
        proof {
            assert(rem[0] == s@[i as int]);
            if i + 3 < n {
                assert(rem[1] == s@[i as int + 1]);
                assert(rem[2] == s@[i as int + 2]);
                assert(rem[3] == s@[i as int + 3]);
            }
        }
        let c = s.get_char(i);
        let mut took_escape = false;
        if c == '\\' && n - i >= 4 {
            let a = s.get_char(i + 1);
            let b = s.get_char(i + 2);
            let d = s.get_char(i + 3);
            if '0' <= a && a <= '7' && '0' <= b && b <= '7' && '0' <= d && d <= '7' {
                let v: u32 = (oct_of(a) * 64 + oct_of(b) * 8 + oct_of(d)) % 256;
                let byte: u8 = v as u8;
                out.push(byte as char);
                i += 4;
                took_escape = true;
                proof {
                    assert(rem.skip(4) =~= s@.skip(i as int));
                    assert(unescape_spec(s@) == out@ + unescape_spec(s@.skip(i as int)));
                }
            }
        }
        if !took_escape {
            proof {
                if rem[0] == '\\' && rem.len() >= 4 {
                    assert(rem.len() >= 4 ==> i + 3 < n);
                }
                assert(rem.skip(1) =~= s@.skip(i as int + 1));
            }
            out.push(c);
            i += 1;
            proof {
                assert(unescape_spec(s@) == out@ + unescape_spec(s@.skip(i as int)));
            }
        }
    }
    proof {
        assert(s@.skip(n as int) =~= Seq::<char>::empty());
        assert(out@ + Seq::<char>::empty() =~= out@);
    }
    out
}

/// Index of the lone `-` separator field, or `-1`.
pub open spec fn dash_idx(fields: Seq<Seq<char>>) -> int
    decreases fields.len(),
{
    if fields.len() == 0 {
        -1
    } else if fields[0] == "-"@ {
        0
    } else if dash_idx(fields.skip(1)) == -1 {
        -1
    } else {
        dash_idx(fields.skip(1)) + 1
    }
}

fn find_dash(fields: &Vec<String>, i: usize) -> (r: Option<usize>)
    requires
        i <= fields@.len(),
    ensures
        match r {
            Some(d) => i + dash_idx(fields@.map_values(|f: String| f@).skip(i as int))
                == d && i <= d < fields@.len(),
            None => dash_idx(fields@.map_values(|f: String| f@).skip(i as int)) == -1,
        },
    decreases fields@.len() - i,
{
    let ghost fvs = fields@.map_values(|f: String| f@);
    if i == fields.len() {
        proof {
            assert(fvs.skip(i as int) =~= Seq::<Seq<char>>::empty());
        }
        return None;
    }
    proof {
        assert(fvs.skip(i as int)[0] == fvs[i as int]);
        assert(fvs.skip(i as int).skip(1) =~= fvs.skip(i as int + 1));
    }
    proof {
        assert(fvs[i as int] == fields@[i as int]@);
    }
    if str_eq(fields[i].as_str(), "-") {
        proof {
            assert(fvs.skip(i as int)[0] == "-"@);
            assert(dash_idx(fvs.skip(i as int)) == 0);
        }
        Some(i)
    } else {
        match find_dash(fields, i + 1) {
            Some(d) => {
                proof {
                    assert(dash_idx(fvs.skip(i as int + 1)) == d - (i + 1));
                    assert(dash_idx(fvs.skip(i as int)) == d - i);
                }
                Some(d)
            },
            None => None,
        }
    }
}

/// The `(source, mount point)` pair of one mountinfo line, if the line is
/// well-formed.
pub open spec fn line_source_mp(line: Seq<char>) -> Option<(Seq<char>, Seq<char>)> {
    let fields = split_char(line, ' ');
    let sep = dash_idx(fields);
    if sep >= 6 && fields.len() >= sep + 3 {
        Some((unescape_spec(fields[sep + 2]), unescape_spec(fields[4])))
    } else {
        None
    }
}

pub open spec fn mount_scan_spec(lines: Seq<Seq<char>>, blk: Seq<char>) -> Option<Seq<char>>
    decreases lines.len(),
{
    if lines.len() == 0 {
        None
    } else if line_source_mp(lines[0]) matches Some(sm) && sm.0 == blk {
        Some(line_source_mp(lines[0])->Some_0.1)
    } else {
        mount_scan_spec(lines.skip(1), blk)
    }
}

/// The first mountinfo entry whose source device is `blk_path`.
pub open spec fn mount_point_spec(fs: Sysfs, blk_path: Seq<char>) -> Option<Seq<char>> {
    match fs.file_at("/proc/self/mountinfo"@) {
        None => None,
        Some(content) => mount_scan_spec(split_char(content, '\n'), blk_path),
    }
}

fn line_source_mp_exec(line: &str) -> (r: Option<(String, String)>)
    ensures
        match r {
            Some(sm) => line_source_mp(line@) == Some((sm.0@, sm.1@)),
            None => line_source_mp(line@) is None,
        },
{
    let fields = split(line, ' ');
    let ghost fvs = fields@.map_values(|f: String| f@);
    proof {
        assert(fvs.skip(0) =~= fvs);
    }
    let sep = match find_dash(&fields, 0) {
        Some(d) => d,
        None => {
            return None;
        },
    };
    if sep >= 6 && fields.len() - sep >= 3 {
        proof {
            assert(fvs[sep + 2] == fields@[sep + 2]@);
            assert(fvs[4] == fields@[4]@);
        }
        let src = unescape(fields[sep + 2].as_str());
        let mp = unescape(fields[4].as_str());
        Some((src, mp))
    } else {
        None
    }
}

fn mount_scan(lines: &Vec<String>, i: usize, blk_path: &str) -> (r: Option<String>)
    requires
        i <= lines@.len(),
    ensures
        match r {
            Some(mp) => mount_scan_spec(
                lines@.map_values(|l: String| l@).skip(i as int),
                blk_path@,
            ) == Some(mp@),
            None => mount_scan_spec(
                lines@.map_values(|l: String| l@).skip(i as int),
                blk_path@,
            ) is None,
        },
    decreases lines@.len() - i,
{
    let ghost lvs = lines@.map_values(|l: String| l@);
    if i == lines.len() {
        proof {
            assert(lvs.skip(i as int) =~= Seq::<Seq<char>>::empty());
        }
        return None;
    }
    proof {
        assert(lvs.skip(i as int)[0] == lvs[i as int]);
        assert(lvs.skip(i as int).skip(1) =~= lvs.skip(i as int + 1));
    }
    if let Some((src, mp)) = line_source_mp_exec(lines[i].as_str()) {
        if str_eq(src.as_str(), blk_path) {
            return Some(mp);
        }
    }
    mount_scan(lines, i + 1, blk_path)
}

/// Search the snapshot's mountinfo for the mount point of `blk_path`. The
/// source field is compared as the kernel reports it, without
/// canonicalizing, so a device mounted via a different symlink can miss.
pub fn get_mount_point(fs: &Sysfs, blk_path: &str) -> (r: Option<String>)
    ensures
        match r {
            Some(mp) => mount_point_spec(*fs, blk_path@) == Some(mp@),
            None => mount_point_spec(*fs, blk_path@) is None,
        },
{
    let content = match fs.read("/proc/self/mountinfo") {
        Ok(c) => c,
        Err(_) => {
            return None;
        },
    };
    let lines = split(content.as_str(), '\n');
    proof {
        assert(lines@.map_values(|l: String| l@).skip(0) =~= lines@.map_values(
            |l: String| l@,
        ));
    }
    mount_scan(&lines, 0, blk_path)
}

} // verus!
