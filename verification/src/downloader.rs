//! The fetcher's bookkeeping: resolving the destination file name from a
//! URL, sizing and advancing the transfer progress, and compressing long
//! names for the progress display.  The streaming transfer itself is I/O
//! and lives with the surrounding program; everything it decides is
//! computed and verified here.

use vstd::prelude::*;

verus! {

/// What one completed download yields: how many bytes were written and
/// where.
pub struct FetchResult {
    pub bytes_written: u64,
    pub destination: String,
}

/// A transport-level failure while fetching one package.  Fatal to the
/// whole run: no retry is attempted.
pub enum FetchError {
    Unreachable { url: String },
}

impl FetchError {
    /// The operator-facing description of the failure.
    pub fn message(&self) -> (r: String)
        ensures
            (match self {
                FetchError::Unreachable { url } => r@ == "Failed to GET from '"@ + url@ + "'"@,
            }),
    {
        match self {
            FetchError::Unreachable { url } => {
                let mut msg = String::from_str("Failed to GET from '");
                msg.append(url.as_str());
                msg.append("'");
                msg
            },
        }
    }
}

/// The index of the last `/` in a string, or `-1` when it has none.
pub open spec fn last_slash(s: Seq<char>) -> int
    decreases s.len(),
{
    if s.len() == 0 {
        -1
    } else if s.last() == '/' {
        s.len() - 1
    } else {
        last_slash(s.drop_last())
    }
}

/// `last_slash` finds a slash position when there is one, and the
/// positions after it hold no slash.
pub proof fn lemma_last_slash(s: Seq<char>)
    ensures
        -1 <= last_slash(s) < s.len(),
        last_slash(s) >= 0 ==> s[last_slash(s)] == '/',
        forall|j: int| last_slash(s) < j < s.len() ==> s[j] != '/',
    decreases s.len(),
{
    if s.len() == 0 {
    } else if s.last() == '/' {
    } else {
        lemma_last_slash(s.drop_last());
        assert forall|j: int| last_slash(s) < j < s.len() implies s[j] != '/' by {
            if j < s.len() - 1 {
                assert(s.drop_last()[j] == s[j]);
            }
        }
    }
}

/// The destination file name a URL determines: its final path segment,
/// or the placeholder `tmp.bin` for a URL without any `/`.
pub open spec fn spec_dest_name(url: Seq<char>) -> Seq<char> {
    if last_slash(url) >= 0 {
        url.subrange(last_slash(url) + 1, url.len() as int)
    } else {
        "tmp.bin"@
    }
}

/// Resolves the name of the file a download is written to: the explicit
/// override when one is supplied, else the URL's final path segment,
/// else a placeholder.
pub fn dest_file_name(url: &str, explicit: Option<&str>) -> (r: String)
    ensures
        (match explicit {
            Some(name) => r@ == name@,
            None => r@ == spec_dest_name(url@),
        }),
{
    match explicit {
        Some(name) => String::from_str(name),
        None => {
            let n: usize = url.unicode_len();
            let mut i: usize = n;
            while i > 0
                invariant
                    explicit is None,
                    n == url@.len(),
                    0 <= i <= n,
                    forall|j: int| i <= j < n ==> url@[j] != '/',
                decreases i,
            {
                if url.get_char(i - 1) == '/' {
                    proof {
                        lemma_last_slash(url@);
                        let ls = last_slash(url@);
                        if ls < i - 1 {
                            assert(url@[i - 1] != '/');
                        }
                        if ls > i - 1 {
                            assert(url@[ls] != '/');
                        }
                        assert(ls == i - 1);
                    }
                    let seg = url.substring_char(i, n);
                    return String::from_str(seg);
                }
                i = i - 1;
            }
            proof {
                lemma_last_slash(url@);
                if last_slash(url@) >= 0 {
                    assert(url@[last_slash(url@)] != '/');
                }
                assert(last_slash(url@) < 0);
            }
            String::from_str("tmp.bin")
        },
    }
}

/// The number of progress units a transfer reports in total: its declared
/// length in kibibytes, or the indeterminate maximum when the transfer
/// declares none.
pub fn progress_total(content_length: Option<u64>) -> (r: u64)
    ensures
        (match content_length {
            Some(n) => r == n / 1024,
            None => r == u64::MAX / 1024,
        }),
        r <= u64::MAX / 1024,
    {
    match content_length {
        Some(n) => n / 1024,
        None => u64::MAX / 1024,
    }
}

/// Advances the progress position after one chunk was written: the
/// position grows by the chunk's size in kibibytes but never passes the
/// declared total.
pub fn progress_advance(downloaded: u64, chunk_len: usize, total: u64) -> (r: u64)
    requires
        downloaded <= total,
        total <= u64::MAX / 1024,
    ensures
        r == (if downloaded + chunk_len as u64 / 1024 <= total {
            downloaded + chunk_len as u64 / 1024
        } else {
            total as int
        }),
        r <= total,
{
    let step = chunk_len as u64 / 1024;
    if step <= total - downloaded {
        downloaded + step
    } else {
        total
    }
}

/// What squashing runs of dots leaves of a string: each `....` found
/// scanning left to right becomes `...`; everything else is kept.
pub open spec fn spec_squash(s: Seq<char>) -> Seq<char>
    decreases s.len(),
{
    if s.len() >= 4 && s.subrange(0, 4) == seq!['.', '.', '.', '.'] {
        seq!['.', '.', '.'] + spec_squash(s.skip(4))
    } else if s.len() == 0 {
        Seq::<char>::empty()
    } else {
        seq![s[0]] + spec_squash(s.drop_first())
    }
}

/// What compressing a display name yields.  A name already within the
/// limit is kept; a longer one keeps a head of its characters, marks the
/// cut with `...`, drops four characters, keeps the rest, and squashes
/// any run of four dots that meets the marker.
pub open spec fn spec_compressed(name: Seq<char>, size_max: int) -> Seq<char>
    recommends
        name.len() >= 1,
{
    let len = name.len() - 1;
    if size_max > len {
        name
    } else {
        let spare = if len > size_max { 0int } else { size_max - len };
        let halved = if spare % 2 == 0 { spare / 2 } else { spare };
        let unneeded = halved + 1;
        let chars_cnt = len / 2;
        let chars_first = if chars_cnt > unneeded { chars_cnt - unneeded } else { chars_cnt };
        let tail = if chars_first + 4 <= len {
            name.subrange(chars_first + 4, len + 1)
        } else {
            Seq::<char>::empty()
        };
        spec_squash(name.subrange(0, chars_first) + seq!['.', '.', '.'] + tail)
    }
}

/// Squashes each `....` that scanning left to right finds into `...`.
fn squash_dots(s: &str) -> (r: String)
    ensures
        r@ == spec_squash(s@),
{
    let n: usize = s.unicode_len();
    let mut out = String::new();
    let mut i: usize = 0;
    proof {
        assert(s@.subrange(0, n as int) =~= s@);
        assert(out@ + spec_squash(s@) =~= spec_squash(s@));
    }
    while i < n
        invariant
            n == s@.len(),
            0 <= i <= n,
            out@ + spec_squash(s@.subrange(i as int, n as int)) == spec_squash(s@),
        decreases n - i,
    {
        let ghost prev = out@;
        let ghost rem = s@.subrange(i as int, n as int);
        if n - i >= 4 && s.get_char(i) == '.' && s.get_char(i + 1) == '.'
            && s.get_char(i + 2) == '.' && s.get_char(i + 3) == '.' {
            out.append("...");
            proof {
                reveal_strlit("...");
                assert(rem.subrange(0, 4) =~= seq!['.', '.', '.', '.']);
                assert(rem.skip(4) =~= s@.subrange(i + 4, n as int));
                assert(out@ + spec_squash(s@.subrange(i + 4, n as int))
                    =~= prev + spec_squash(rem));
            }
            i = i + 4;
        } else {
            let one = s.substring_char(i, i + 1);
            out.append(one);
            proof {
                if rem.len() >= 4 && rem.subrange(0, 4) == seq!['.', '.', '.', '.'] {
                    assert(rem[2] == '.' && rem[3] == '.') by {
                        assert(rem.subrange(0, 4)[2] == rem[2]);
                        assert(rem.subrange(0, 4)[3] == rem[3]);
                    }
                    assert(false);
                }
                assert(one@ =~= seq![s@[i as int]]);
                assert(rem.drop_first() =~= s@.subrange(i + 1, n as int));
                assert(out@ + spec_squash(s@.subrange(i + 1, n as int))
                    =~= prev + spec_squash(rem));
            }
            i = i + 1;
        }
    }
    proof {
        assert(s@.subrange(n as int, n as int) =~= Seq::<char>::empty());
        assert(out@ =~= out@ + spec_squash(s@.subrange(n as int, n as int)));
    }
    out
}

/// Compresses a file name for the progress display so that it stays
/// within roughly `size_max` characters, marking the cut with `...`.
pub fn compress_name(name: &str, size_max: usize) -> (r: String)
    requires
        name@.len() >= 1,
    ensures
        r@ == spec_compressed(name@, size_max as int),
{
    let n: usize = name.unicode_len();
    let len = n - 1;
    if size_max > len {
        return String::from_str(name);
    }
    let spare = if len > size_max { 0 } else { size_max - len };
    let halved = if spare % 2 == 0 { spare / 2 } else { spare };
    let unneeded = halved + 1;
    let chars_cnt = len / 2;
    let chars_first = if chars_cnt > unneeded { chars_cnt - unneeded } else { chars_cnt };
    let mut mid = String::from_str(name.substring_char(0, chars_first));
    mid.append("...");
    if chars_first + 4 <= len {
        let tail = name.substring_char(chars_first + 4, len + 1);
        mid.append(tail);
    }
    proof {
        reveal_strlit("...");
        let chars_first_s = chars_first as int;
        let tail_s = if chars_first_s + 4 <= len {
            name@.subrange(chars_first_s + 4, len + 1)
        } else {
            Seq::<char>::empty()
        };
        assert(mid@ =~= name@.subrange(0, chars_first_s) + seq!['.', '.', '.'] + tail_s);
    }
    squash_dots(mid.as_str())
}

} // verus!
