//! The argument lists of the `ffprobe` duration query and the `ffmpeg` SVT-AV1 encode.

use vstd::prelude::*;
use crate::allocator::bitrate_option_spec;
use crate::text::{
    decimal, is_decimal_digit, is_white_space, lemma_decimal_digits, split_whitespace,
    strings_view, word_scan, words_spec,
};

verus! {

/// The `ffprobe` arguments that print only the container duration of `file_path`.
pub open spec fn ffprobe_duration_args_spec(file_path: Seq<char>) -> Seq<Seq<char>> {
    seq![
        "-v"@,
        "error"@,
        "-show_entries"@,
        "format=duration"@,
        "-of"@,
        "default=noprint_wrappers=1:nokey=1"@,
        file_path,
    ]
}

/// The `ffprobe` arguments that print only the container duration of `file_path`.
pub fn ffprobe_duration_args(file_path: &str) -> (args: Vec<String>)
    ensures
        strings_view(args@) == ffprobe_duration_args_spec(file_path@),
{
    let mut args: Vec<String> = Vec::new();
    args.push(String::from_str("-v"));
    args.push(String::from_str("error"));
    args.push(String::from_str("-show_entries"));
    args.push(String::from_str("format=duration"));
    args.push(String::from_str("-of"));
    args.push(String::from_str("default=noprint_wrappers=1:nokey=1"));
    args.push(String::from_str(file_path));
    assert(strings_view(args@) =~= ffprobe_duration_args_spec(file_path@));
    args
}

/// The `ffprobe` query has seven arguments: the six fixed options that make it print
/// only the container duration, then the given file path, character for character.
pub proof fn lemma_ffprobe_query_ends_with_path(file_path: Seq<char>)
    ensures
        ffprobe_duration_args_spec(file_path).len() == 7,
        ffprobe_duration_args_spec(file_path)[0] == "-v"@,
        ffprobe_duration_args_spec(file_path)[1] == "error"@,
        ffprobe_duration_args_spec(file_path)[2] == "-show_entries"@,
        ffprobe_duration_args_spec(file_path)[3] == "format=duration"@,
        ffprobe_duration_args_spec(file_path)[4] == "-of"@,
        ffprobe_duration_args_spec(file_path)[5] == "default=noprint_wrappers=1:nokey=1"@,
        ffprobe_duration_args_spec(file_path)[6] == file_path,
{
}

/// The SVT-AV1 parameter string: 10-second keyframe interval, visual-quality tuning,
/// overlay frames, and the logical-processor cap `threads`.
pub open spec fn svt_params_spec(threads: Seq<char>) -> Seq<char> {
    "keyint=10s:tune=0:enable-overlays=1:lp="@ + threads
}

/// The `ffmpeg` arguments of an encode: overwrite the output; seek in the input by
/// `seek` where given; read `input_path`; stop after `duration` where given; encode
/// with SVT-AV1 using the words of `crf_or_bitrate`, `preset`, the parameter string
/// for `threads` and `pix_fmt`; Opus audio; write `output_path`.
pub open spec fn ffmpeg_args_spec(
    input_path: Seq<char>,
    output_path: Seq<char>,
    seek: Option<Seq<char>>,
    duration: Option<Seq<char>>,
    threads: Seq<char>,
    crf_or_bitrate: Seq<char>,
    preset: Seq<char>,
    pix_fmt: Seq<char>,
) -> Seq<Seq<char>> {
    let seek_part = match seek {
        Some(s) => seq!["-ss"@, s],
        None => Seq::empty(),
    };
    let duration_part = match duration {
        Some(d) => seq!["-t"@, d],
        None => Seq::empty(),
    };
    seq!["-y"@] + seek_part + seq!["-i"@, input_path] + duration_part + seq![
        "-c:v"@,
        "libsvtav1"@,
    ] + words_spec(crf_or_bitrate) + seq![
        "-preset"@,
        preset,
        "-svtav1-params"@,
        svt_params_spec(threads),
        "-pix_fmt"@,
        pix_fmt,
        "-c:a"@,
        "libopus"@,
        output_path,
    ]
}

fn push_text(args: &mut Vec<String>, text: &str)
    ensures
        strings_view(final(args)@) == strings_view(old(args)@).push(text@),
{
    args.push(String::from_str(text));
    assert(strings_view(final(args)@) =~= strings_view(old(args)@).push(text@));
}

/// The `ffmpeg` arguments of an encode; `seek` and `duration` are the decimal texts of
/// the seek offset and duration cap in seconds, where there are any.
pub fn build_ffmpeg_args(
    input_path: &str,
    output_path: &str,
    seek: Option<&str>,
    duration: Option<&str>,
    threads: &str,
    crf_or_bitrate: &str,
    preset: &str,
    pix_fmt: &str,
) -> (args: Vec<String>)
    ensures
        strings_view(args@) == ffmpeg_args_spec(
            input_path@,
            output_path@,
            match seek {
                Some(s) => Some(s@),
                None => None,
            },
            match duration {
                Some(d) => Some(d@),
                None => None,
            },
            threads@,
            crf_or_bitrate@,
            preset@,
            pix_fmt@,
        ),
{
    let ghost seek_v = match seek {
        Some(s) => Some(s@),
        None => None,
    };
    let ghost duration_v = match duration {
        Some(d) => Some(d@),
        None => None,
    };
    let ghost seek_part = match seek_v {
        Some(s) => seq!["-ss"@, s],
        None => Seq::<Seq<char>>::empty(),
    };
    let ghost duration_part = match duration_v {
        Some(d) => seq!["-t"@, d],
        None => Seq::<Seq<char>>::empty(),
    };
    let mut args: Vec<String> = Vec::new();
    push_text(&mut args, "-y");
    match seek {
        Some(s) => {
            push_text(&mut args, "-ss");
            push_text(&mut args, s);
        },
        None => {},
    }
    assert(strings_view(args@) =~= seq!["-y"@] + seek_part);
    push_text(&mut args, "-i");
    push_text(&mut args, input_path);
    assert(strings_view(args@) =~= seq!["-y"@] + seek_part + seq!["-i"@, input_path@]);
    let ghost before_duration = strings_view(args@);
    match duration {
        Some(d) => {
            push_text(&mut args, "-t");
            push_text(&mut args, d);
        },
        None => {},
    }
    assert(strings_view(args@) =~= before_duration + duration_part);
    push_text(&mut args, "-c:v");
    push_text(&mut args, "libsvtav1");
    let ghost head = strings_view(args@);
    assert(head =~= seq!["-y"@] + seek_part + seq!["-i"@, input_path@] + duration_part + seq![
        "-c:v"@,
        "libsvtav1"@,
    ]);
    let words = split_whitespace(crf_or_bitrate);
    let mut i: usize = 0;
    while i < words.len()
        invariant
            i <= words.len(),
            strings_view(words@) == words_spec(crf_or_bitrate@),
            strings_view(args@) == head + strings_view(words@).take(i as int),
        decreases words.len() - i,
    {
        let ghost before = strings_view(args@);
        let w = words[i].clone();
        assert(w@ == strings_view(words@)[i as int]);
        args.push(w);
        assert(strings_view(args@) =~= before.push(w@));
        i = i + 1;
        assert(strings_view(words@).take(i as int) =~= strings_view(words@).take(i - 1).push(w@));
        assert(strings_view(args@) =~= head + strings_view(words@).take(i as int));
    }
    assert(strings_view(words@).take(i as int) =~= strings_view(words@));
    let ghost middle = strings_view(args@);
    push_text(&mut args, "-preset");
    push_text(&mut args, preset);
    push_text(&mut args, "-svtav1-params");
    let mut svt_params = String::from_str("keyint=10s:tune=0:enable-overlays=1:lp=");
    svt_params.append(threads);
    let ghost params_view = svt_params@;
    let ghost before_params = strings_view(args@);
    args.push(svt_params);
    assert(strings_view(args@) =~= before_params.push(params_view));
    push_text(&mut args, "-pix_fmt");
    push_text(&mut args, pix_fmt);
    push_text(&mut args, "-c:a");
    push_text(&mut args, "libopus");
    push_text(&mut args, output_path);
    assert(params_view == svt_params_spec(threads@));
    assert(strings_view(args@) =~= middle + seq![
        "-preset"@,
        preset@,
        "-svtav1-params"@,
        svt_params_spec(threads@),
        "-pix_fmt"@,
        pix_fmt@,
        "-c:a"@,
        "libopus"@,
        output_path@,
    ]);
    args
}


/// In the `ffmpeg` arguments, the input path stands right after `-i` and the output
/// path last: each is read as a file name, whatever the other arguments hold.
pub proof fn lemma_paths_are_operands(
    input_path: Seq<char>,
    output_path: Seq<char>,
    seek: Option<Seq<char>>,
    duration: Option<Seq<char>>,
    threads: Seq<char>,
    crf_or_bitrate: Seq<char>,
    preset: Seq<char>,
    pix_fmt: Seq<char>,
)
    ensures
        ({
            let args = ffmpeg_args_spec(
                input_path,
                output_path,
                seek,
                duration,
                threads,
                crf_or_bitrate,
                preset,
                pix_fmt,
            );
            let at = if seek is Some {
                4int
            } else {
                2int
            };
            &&& args[at - 1] == "-i"@
            &&& args[at] == input_path
            &&& args[args.len() - 1] == output_path
        }),
{
    let seek_part = match seek {
        Some(s) => seq!["-ss"@, s],
        None => Seq::<Seq<char>>::empty(),
    };
    let duration_part = match duration {
        Some(d) => seq!["-t"@, d],
        None => Seq::<Seq<char>>::empty(),
    };
    let head = seq!["-y"@] + seek_part + seq!["-i"@, input_path];
    let rest = duration_part + seq!["-c:v"@, "libsvtav1"@] + words_spec(crf_or_bitrate);
    let tail = seq![
        "-preset"@,
        preset,
        "-svtav1-params"@,
        svt_params_spec(threads),
        "-pix_fmt"@,
        pix_fmt,
        "-c:a"@,
        "libopus"@,
        output_path,
    ];
    let args = ffmpeg_args_spec(
        input_path,
        output_path,
        seek,
        duration,
        threads,
        crf_or_bitrate,
        preset,
        pix_fmt,
    );
    assert(args =~= head + rest + tail);
    let at = if seek is Some {
        4int
    } else {
        2int
    };
    assert(head.len() == at + 1);
    assert(head[at - 1] == "-i"@);
    assert(head[at] == input_path);
    assert((head + rest + tail)[at] == head[at]);
    assert((head + rest + tail)[at - 1] == head[at - 1]);
}

/// The layout of the `ffmpeg` arguments, position by position: `-y`; `-ss` and the
/// seek offset when one is given; `-i` and the input path; `-t` and the duration cap
/// when one is given (whether or not a seek offset is); `-c:v libsvtav1`; each word
/// of the rate-control option; `-preset` and the preset; `-svtav1-params` and the
/// parameter string ending in `lp=` and the thread cap; `-pix_fmt` and the pixel
/// format; `-c:a libopus`; and last the output path. Nothing else is in the list.
pub proof fn lemma_ffmpeg_arg_layout(
    input_path: Seq<char>,
    output_path: Seq<char>,
    seek: Option<Seq<char>>,
    duration: Option<Seq<char>>,
    threads: Seq<char>,
    crf_or_bitrate: Seq<char>,
    preset: Seq<char>,
    pix_fmt: Seq<char>,
)
    ensures
        ({
            let args = ffmpeg_args_spec(
                input_path,
                output_path,
                seek,
                duration,
                threads,
                crf_or_bitrate,
                preset,
                pix_fmt,
            );
            let words = words_spec(crf_or_bitrate);
            let at = if seek is Some {
                4int
            } else {
                2int
            };
            let codec = if duration is Some {
                at + 3
            } else {
                at + 1
            };
            let tail = codec + 2 + words.len();
            &&& args.len() == tail + 9
            &&& args[0] == "-y"@
            &&& (seek matches Some(s) ==> args[1] == "-ss"@ && args[2] == s)
            &&& args[at - 1] == "-i"@
            &&& args[at] == input_path
            &&& (duration matches Some(d) ==> args[at + 1] == "-t"@ && args[at + 2] == d)
            &&& args[codec] == "-c:v"@
            &&& args[codec + 1] == "libsvtav1"@
            &&& (forall|k: int| 0 <= k < words.len() ==> args[codec + 2 + k] == #[trigger] words[k])
            &&& args[tail] == "-preset"@
            &&& args[tail + 1] == preset
            &&& args[tail + 2] == "-svtav1-params"@
            &&& args[tail + 3] == "keyint=10s:tune=0:enable-overlays=1:lp="@ + threads
            &&& args[tail + 4] == "-pix_fmt"@
            &&& args[tail + 5] == pix_fmt
            &&& args[tail + 6] == "-c:a"@
            &&& args[tail + 7] == "libopus"@
            &&& args[tail + 8] == output_path
        }),
{
    let seek_part = match seek {
        Some(s) => seq!["-ss"@, s],
        None => Seq::<Seq<char>>::empty(),
    };
    let duration_part = match duration {
        Some(d) => seq!["-t"@, d],
        None => Seq::<Seq<char>>::empty(),
    };
    let words = words_spec(crf_or_bitrate);
    let head = seq!["-y"@] + seek_part + seq!["-i"@, input_path] + duration_part + seq![
        "-c:v"@,
        "libsvtav1"@,
    ];
    let tail_part = seq![
        "-preset"@,
        preset,
        "-svtav1-params"@,
        svt_params_spec(threads),
        "-pix_fmt"@,
        pix_fmt,
        "-c:a"@,
        "libopus"@,
        output_path,
    ];
    let args = ffmpeg_args_spec(
        input_path,
        output_path,
        seek,
        duration,
        threads,
        crf_or_bitrate,
        preset,
        pix_fmt,
    );
    assert(args =~= head + words + tail_part);
    let at = if seek is Some {
        4int
    } else {
        2int
    };
    let codec = if duration is Some {
        at + 3
    } else {
        at + 1
    };
    assert(head.len() == codec + 2);
    assert(head[0] == "-y"@);
    assert(head[at - 1] == "-i"@);
    assert(head[at] == input_path);
    assert(head[codec] == "-c:v"@);
    assert(head[codec + 1] == "libsvtav1"@);
    if let Some(s) = seek {
        assert(head[1] == "-ss"@ && head[2] == s);
    }
    if let Some(d) = duration {
        assert(head[at + 1] == "-t"@ && head[at + 2] == d);
    }
    assert forall|k: int| 0 <= k < words.len() implies args[codec + 2 + k] == #[trigger] words[k] by {
        assert((head + words)[codec + 2 + k] == words[k]);
    }
}

proof fn lemma_word_scan_extend(a: Seq<char>, b: Seq<char>)
    requires
        forall|i: int| 0 <= i < b.len() ==> !is_white_space(#[trigger] b[i]),
    ensures
        word_scan(a + b) == (word_scan(a).0, word_scan(a).1 + b),
    decreases b.len(),
{
    if b.len() == 0 {
        assert(a + b =~= a);
        assert(word_scan(a).1 + b =~= word_scan(a).1);
    } else {
        assert((a + b).drop_last() =~= a + b.drop_last());
        assert((a + b).last() == b.last());
        assert(!is_white_space(b[b.len() - 1]));
        lemma_word_scan_extend(a, b.drop_last());
        assert(word_scan(a).1 + b.drop_last() + seq![b.last()] =~= word_scan(a).1 + b);
    }
}

/// The rate-control option of a plan becomes exactly two `ffmpeg` arguments:
/// `-b:v` and the target bitrate followed by `k`.
pub proof fn lemma_bitrate_option_words(kbps: u32)
    ensures
        words_spec(bitrate_option_spec(kbps)) == seq!["-b:v"@, decimal(kbps as nat) + seq!['k']],
{
    reveal_strlit("-b:v ");
    reveal_strlit("-b:v");
    let p = "-b:v "@;
    let value = decimal(kbps as nat) + seq!['k'];
    assert(p.take(0) =~= Seq::<char>::empty());
    assert(p.take(1).drop_last() =~= p.take(0));
    assert(p.take(2).drop_last() =~= p.take(1));
    assert(p.take(3).drop_last() =~= p.take(2));
    assert(p.take(4).drop_last() =~= p.take(3));
    assert(p.take(5).drop_last() =~= p.take(4));
    assert(word_scan(p.take(0)).0 =~= Seq::<Seq<char>>::empty());
    assert(word_scan(p.take(0)).1 =~= Seq::<char>::empty());
    assert(p.take(1).last() == '-');
    assert(word_scan(p.take(1)).0 =~= Seq::<Seq<char>>::empty());
    assert(word_scan(p.take(1)).1 =~= seq!['-']);
    assert(p.take(2).last() == 'b');
    assert(word_scan(p.take(2)).0 =~= Seq::<Seq<char>>::empty());
    assert(word_scan(p.take(2)).1 =~= seq!['-', 'b']);
    assert(p.take(3).last() == ':');
    assert(word_scan(p.take(3)).0 =~= Seq::<Seq<char>>::empty());
    assert(word_scan(p.take(3)).1 =~= seq!['-', 'b', ':']);
    assert(p.take(4).last() == 'v');
    assert(word_scan(p.take(4)).0 =~= Seq::<Seq<char>>::empty());
    assert(word_scan(p.take(4)).1 =~= seq!['-', 'b', ':', 'v']);
    assert(p.take(5).last() == ' ');
    assert(p.take(5) =~= p);
    assert(seq!['-', 'b', ':', 'v'] =~= "-b:v"@);
    assert(word_scan(p).0 =~= seq!["-b:v"@]);
    assert(word_scan(p).1 =~= Seq::<char>::empty());
    lemma_decimal_digits(kbps as nat);
    assert forall|i: int| 0 <= i < value.len() implies !is_white_space(#[trigger] value[i]) by {
        if i < value.len() - 1 {
            assert(is_decimal_digit(decimal(kbps as nat)[i]));
        }
    }
    lemma_word_scan_extend(p, value);
    assert(Seq::<char>::empty() + value =~= value);
    assert(bitrate_option_spec(kbps) =~= p + value);
}

} // verus!
