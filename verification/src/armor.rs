use vstd::prelude::*;

verus! {

/// A line without its final carriage return, if it ends in one.
pub open spec fn spec_strip_cr(line: Seq<char>) -> Seq<char> {
    if line.len() > 0 && line.last() == '\r' {
        line.drop_last()
    } else {
        line
    }
}

/// The lines of `s` that follow the partial line `cur`, as `str::lines` splits them: at each
/// `'\n'`, a `'\r'` just before it is dropped with it, and a last line that has no `'\n'`
/// after it is kept as it stands unless it is empty.
pub open spec fn spec_lines_from(s: Seq<char>, cur: Seq<char>) -> Seq<Seq<char>>
    decreases s.len(),
{
    if s.len() == 0 {
        if cur.len() == 0 {
            seq![]
        } else {
            seq![cur]
        }
    } else if s[0] == '\n' {
        seq![spec_strip_cr(cur)] + spec_lines_from(s.drop_first(), seq![])
    } else {
        spec_lines_from(s.drop_first(), cur.push(s[0]))
    }
}

/// The lines of a text, as `str::lines` yields them.
pub open spec fn spec_lines(s: Seq<char>) -> Seq<Seq<char>> {
    spec_lines_from(s, seq![])
}

/// Whether a line is an armor line (`-----BEGIN ...-----` and the like): it starts with `'-'`.
pub open spec fn spec_is_armor_line(line: Seq<char>) -> bool {
    line.len() > 0 && line[0] == '-'
}

/// The concatenation of the lines that are not armor lines, in order.
pub open spec fn spec_join_body(lines: Seq<Seq<char>>) -> Seq<char>
    decreases lines.len(),
{
    if lines.len() == 0 {
        seq![]
    } else {
        (if spec_is_armor_line(lines[0]) {
            seq![]
        } else {
            lines[0]
        }) + spec_join_body(lines.drop_first())
    }
}

/// The body of a PEM text: its lines that do not start with `'-'`, joined without separator.
pub open spec fn spec_pem_body(s: Seq<char>) -> Seq<char> {
    spec_join_body(spec_lines(s))
}

} // verus!

verus! {

/// The text of `data` from character `from` up to `to`, appended to `res` unless it is an
/// armor line.
fn append_unless_armor(res: &mut String, data: &str, from: usize, to: usize)
    requires
        from <= to <= data@.len(),
    ensures
        final(res)@ == old(res)@ + (if spec_is_armor_line(data@.subrange(from as int, to as int)) {
            Seq::<char>::empty()
        } else {
            data@.subrange(from as int, to as int)
        }),
{
    if to > from && data.get_char(from) == '-' {
        assert(res@ =~= res@ + Seq::<char>::empty());
    } else {
        let line = data.substring_char(from, to);
        res.append(line);
    }
}

/// The body of a PEM text: the concatenation of its lines (as `str::lines` splits them) that
/// do not start with `'-'`. On a PEM block this is its base64 payload without line breaks.
pub fn read_pubkey(data: &str) -> (res: String)
    ensures
        res@ == spec_pem_body(data@),
{
    let n = data.unicode_len();
    let ghost s = data@;
    let mut res = String::new();
    let mut start: usize = 0;
    let mut i: usize = 0;
    assert(s.skip(0) =~= s);
    assert(s.subrange(0, 0) =~= Seq::<char>::empty());
    while i < n
        invariant
            n == s.len(),
            s == data@,
            start <= i <= n,
            forall|k: int| start <= k < i ==> s[k] != '\n',
            spec_pem_body(s) == res@ + spec_join_body(
                spec_lines_from(s.skip(i as int), s.subrange(start as int, i as int)),
            ),
        decreases n - i,
    {
        let c = data.get_char(i);
        let ghost cur = s.subrange(start as int, i as int);
        assert(s.skip(i as int).drop_first() =~= s.skip(i + 1));
        assert(s.skip(i as int)[0] == c);
        if c == '\n' {
            let line_end = if i > start && data.get_char(i - 1) == '\r' {
                i - 1
            } else {
                i
            };
            assert(s.subrange(start as int, line_end as int) =~= spec_strip_cr(cur));
            let ghost rest = spec_lines_from(s.skip(i + 1), Seq::<char>::empty());
            let ghost lines = seq![spec_strip_cr(cur)] + rest;
            assert(lines[0] == spec_strip_cr(cur));
            assert(lines.drop_first() =~= rest);
            append_unless_armor(&mut res, data, start, line_end);
            i = i + 1;
            start = i;
            assert(s.subrange(start as int, i as int) =~= Seq::<char>::empty());
        } else {
            assert(cur.push(c) =~= s.subrange(start as int, i + 1));
            i = i + 1;
        }
    }
    let ghost cur = s.subrange(start as int, n as int);
    assert(s.skip(n as int) =~= Seq::<char>::empty());
    proof {
        let empty = Seq::<char>::empty();
        if cur.len() > 0 {
            let lines = seq![cur];
            assert(spec_lines_from(empty, cur) == lines);
            assert(lines.drop_first() =~= Seq::<Seq<char>>::empty());
            assert(spec_join_body(lines.drop_first()) == empty);
            assert(lines[0] == cur);
            assert(spec_join_body(lines) =~= (if spec_is_armor_line(cur) { empty } else { cur }));
        } else {
            assert(spec_lines_from(empty, cur) == Seq::<Seq<char>>::empty());
        }
    }
    let ghost before = res@;
    append_unless_armor(&mut res, data, start, n);
    assert(res@ =~= before + spec_join_body(spec_lines_from(s.skip(n as int), cur)));
    res
}

} // verus!

verus! {

/// The line ending that PEM encoding writes: `"\r\n"` when `crlf`, else `"\n"`.
pub open spec fn spec_eol(crlf: bool) -> Seq<char> {
    if crlf {
        seq!['\r', '\n']
    } else {
        seq!['\n']
    }
}

/// The lines, each followed by the line ending `eol`.
pub open spec fn spec_join_lines(lines: Seq<Seq<char>>, eol: Seq<char>) -> Seq<char>
    decreases lines.len(),
{
    if lines.len() == 0 {
        seq![]
    } else {
        lines[0] + eol + spec_join_lines(lines.drop_first(), eol)
    }
}

/// The lines concatenated without separator.
pub open spec fn spec_concat(lines: Seq<Seq<char>>) -> Seq<char>
    decreases lines.len(),
{
    if lines.len() == 0 {
        seq![]
    } else {
        lines[0] + spec_concat(lines.drop_first())
    }
}

/// A PEM block with label `tag` whose payload lines are `body`.
pub open spec fn spec_pem_frame(tag: Seq<char>, body: Seq<Seq<char>>, crlf: bool) -> Seq<char> {
    "-----BEGIN "@ + tag + "-----"@ + spec_eol(crlf) + spec_join_lines(body, spec_eol(crlf))
        + "-----END "@ + tag + "-----"@ + spec_eol(crlf)
}

/// A character of the standard base64 alphabet, padding included.
pub open spec fn spec_is_base64_char(c: char) -> bool {
    ('A' <= c <= 'Z') || ('a' <= c <= 'z') || ('0' <= c <= '9') || c == '+' || c == '/' || c == '='
}

/// Payload lines as PEM encoding writes them: base64 characters, at most 64 to a line.
pub open spec fn spec_base64_lines(body: Seq<Seq<char>>) -> bool {
    &&& forall|i: int| 0 <= i < body.len() ==> #[trigger] body[i].len() <= 64
    &&& forall|i: int, k: int|
        0 <= i < body.len() && 0 <= k < body[i].len() ==> spec_is_base64_char(#[trigger] body[i][k])
}

/// `text` is a PEM block with label `tag` and base64 payload lines, each line ended by the
/// line ending that `crlf` selects.
pub open spec fn spec_is_pem_block(text: Seq<char>, tag: Seq<char>, crlf: bool) -> bool {
    exists|body: Seq<Seq<char>>| spec_base64_lines(body) && text == spec_pem_frame(tag, body, crlf)
}

/// A payload line that reading back keeps whole: no line break or carriage return in it, and it
/// does not start with `'-'`.
pub open spec fn spec_is_plain_line(line: Seq<char>) -> bool {
    &&& forall|k: int| 0 <= k < line.len() ==> #[trigger] line[k] != '\n' && line[k] != '\r'
    &&& !spec_is_armor_line(line)
}

proof fn lemma_lines_step(l: Seq<char>, r: Seq<char>, cur: Seq<char>)
    requires
        forall|k: int| 0 <= k < l.len() ==> l[k] != '\n',
    ensures
        spec_lines_from(l + seq!['\n'] + r, cur) == seq![spec_strip_cr(cur + l)] + spec_lines_from(
            r,
            seq![],
        ),
    decreases l.len(),
{
    let t = l + seq!['\n'] + r;
    if l.len() == 0 {
        assert(t[0] == '\n');
        assert(t.drop_first() =~= r);
        assert(cur + l =~= cur);
    } else {
        assert(t[0] == l[0]);
        assert(t.drop_first() =~= l.drop_first() + seq!['\n'] + r);
        lemma_lines_step(l.drop_first(), r, cur.push(l[0]));
        assert(cur.push(l[0]) + l.drop_first() =~= cur + l);
    }
}

proof fn lemma_line_with_eol(l: Seq<char>, r: Seq<char>, crlf: bool)
    requires
        forall|k: int| 0 <= k < l.len() ==> l[k] != '\n' && l[k] != '\r',
    ensures
        spec_lines_from(l + spec_eol(crlf) + r, seq![]) == seq![l] + spec_lines_from(r, seq![]),
{
    let empty = Seq::<char>::empty();
    if crlf {
        let lr = l.push('\r');
        assert(l + spec_eol(crlf) + r =~= lr + seq!['\n'] + r);
        lemma_lines_step(lr, r, empty);
        assert(empty + lr =~= lr);
        assert(spec_strip_cr(lr) =~= l);
    } else {
        assert(l + spec_eol(crlf) + r =~= l + seq!['\n'] + r);
        lemma_lines_step(l, r, empty);
        assert(empty + l =~= l);
        if l.len() > 0 {
            assert(l.last() != '\r');
        }
    }
}

proof fn lemma_join_body_prepend(line: Seq<char>, rest: Seq<Seq<char>>)
    ensures
        spec_join_body(seq![line] + rest) == (if spec_is_armor_line(line) {
            Seq::<char>::empty()
        } else {
            line
        }) + spec_join_body(rest),
{
    let lines = seq![line] + rest;
    assert(lines[0] == line);
    assert(lines.drop_first() =~= rest);
}

proof fn lemma_body_of_joined(body: Seq<Seq<char>>, rest: Seq<char>, crlf: bool)
    requires
        forall|i: int| 0 <= i < body.len() ==> spec_is_plain_line(#[trigger] body[i]),
    ensures
        spec_join_body(spec_lines_from(spec_join_lines(body, spec_eol(crlf)) + rest, seq![]))
            == spec_concat(body) + spec_join_body(spec_lines_from(rest, seq![])),
    decreases body.len(),
{
    let eol = spec_eol(crlf);
    if body.len() == 0 {
        assert(spec_join_lines(body, eol) + rest =~= rest);
        assert(spec_concat(body) + spec_join_body(spec_lines_from(rest, seq![])) =~= spec_join_body(
            spec_lines_from(rest, seq![]),
        ));
    } else {
        let l = body[0];
        let tail = body.drop_first();
        assert(spec_is_plain_line(body[0]));
        assert(forall|i: int| 0 <= i < tail.len() ==> tail[i] == body[i + 1]);
        let r = spec_join_lines(tail, eol) + rest;
        assert(spec_join_lines(body, eol) + rest =~= l + eol + r);
        lemma_line_with_eol(l, r, crlf);
        lemma_join_body_prepend(l, spec_lines_from(r, seq![]));
        lemma_body_of_joined(tail, rest, crlf);
        assert(spec_concat(body) == l + spec_concat(tail));
        assert((l + spec_concat(tail)) + spec_join_body(spec_lines_from(rest, seq![])) =~= l + (
        spec_concat(tail) + spec_join_body(spec_lines_from(rest, seq![]))));
    }
}

/// Reading a PEM block back gives its payload: the body of a PEM block whose payload lines
/// hold no line break or carriage return and do not start with `'-'` is the concatenation of
/// those lines, whichever of the two line endings the block uses.
pub proof fn lemma_read_back_pem_block(tag: Seq<char>, body: Seq<Seq<char>>, crlf: bool)
    requires
        forall|k: int| 0 <= k < tag.len() ==> tag[k] != '\n',
        forall|i: int| 0 <= i < body.len() ==> spec_is_plain_line(#[trigger] body[i]),
    ensures
        spec_pem_body(spec_pem_frame(tag, body, crlf)) == spec_concat(body),
{
    reveal_strlit("-----BEGIN ");
    reveal_strlit("-----END ");
    reveal_strlit("-----");
    let eol = spec_eol(crlf);
    let empty = Seq::<char>::empty();
    let begin = "-----BEGIN "@ + tag + "-----"@;
    let end = "-----END "@ + tag + "-----"@;
    assert(begin[0] == '-');
    assert(end[0] == '-');
    assert(begin.last() == '-');
    assert(end.last() == '-');
    let tail = spec_join_lines(body, eol) + end + eol;
    assert(spec_pem_frame(tag, body, crlf) =~= begin + seq!['\n'] + tail || spec_pem_frame(
        tag,
        body,
        crlf,
    ) =~= begin.push('\r') + seq!['\n'] + tail);
    assert forall|k: int| 0 <= k < begin.len() implies begin[k] != '\n' by {
        if k >= 11 && k < 11 + tag.len() {
            assert(begin[k] == tag[k - 11]);
        }
    }
    assert forall|k: int| 0 <= k < end.len() implies end[k] != '\n' by {
        if k >= 9 && k < 9 + tag.len() {
            assert(end[k] == tag[k - 9]);
        }
    }
    if crlf {
        assert(spec_pem_frame(tag, body, crlf) =~= begin.push('\r') + seq!['\n'] + tail);
        lemma_lines_step(begin.push('\r'), tail, empty);
        assert(empty + begin.push('\r') =~= begin.push('\r'));
        assert(spec_strip_cr(begin.push('\r')) =~= begin);
    } else {
        assert(spec_pem_frame(tag, body, crlf) =~= begin + seq!['\n'] + tail);
        lemma_lines_step(begin, tail, empty);
        assert(empty + begin =~= begin);
    }
    lemma_join_body_prepend(begin, spec_lines_from(tail, empty));
    lemma_body_of_joined(body, end + eol, crlf);
    assert(spec_join_lines(body, eol) + (end + eol) =~= tail);
    // The END line ends the text.
    if crlf {
        assert(end + eol =~= end.push('\r') + seq!['\n'] + empty);
        lemma_lines_step(end.push('\r'), empty, empty);
        assert(empty + end.push('\r') =~= end.push('\r'));
        assert(spec_strip_cr(end.push('\r')) =~= end);
    } else {
        assert(end + eol =~= end + seq!['\n'] + empty);
        lemma_lines_step(end, empty, empty);
        assert(empty + end =~= end);
    }
    lemma_join_body_prepend(end, spec_lines_from(empty, empty));
    assert(spec_lines_from(empty, empty) == Seq::<Seq<char>>::empty());
    assert(spec_join_body(Seq::<Seq<char>>::empty()) == empty);
    assert(spec_concat(body) + empty =~= spec_concat(body));
}

} // verus!

verus! {

/// Reading back what PEM encoding writes gives the base64 payload: the body of a PEM block
/// with base64 payload lines is the concatenation of those lines.
pub proof fn lemma_read_back_base64_block(tag: Seq<char>, body: Seq<Seq<char>>, crlf: bool)
    requires
        forall|k: int| 0 <= k < tag.len() ==> tag[k] != '\n',
        spec_base64_lines(body),
    ensures
        spec_pem_body(spec_pem_frame(tag, body, crlf)) == spec_concat(body),
{
    assert forall|i: int| 0 <= i < body.len() implies spec_is_plain_line(#[trigger] body[i]) by {
        assert forall|k: int| 0 <= k < body[i].len() implies #[trigger] body[i][k] != '\n'
            && body[i][k] != '\r' by {
            assert(spec_is_base64_char(body[i][k]));
        }
        if body[i].len() > 0 {
            assert(spec_is_base64_char(body[i][0]));
        }
    }
    lemma_read_back_pem_block(tag, body, crlf);
}

} // verus!

verus! {

/// Any PEM block with base64 payload lines reads back as the concatenation of its payload
/// lines.
pub proof fn lemma_read_back_pem_text(text: Seq<char>, tag: Seq<char>, crlf: bool)
    requires
        forall|k: int| 0 <= k < tag.len() ==> tag[k] != '\n',
        spec_is_pem_block(text, tag, crlf),
    ensures
        exists|body: Seq<Seq<char>>|
            {
                &&& spec_base64_lines(body)
                &&& text == spec_pem_frame(tag, body, crlf)
                &&& spec_pem_body(text) == spec_concat(body)
            },
{
    let body = choose|body: Seq<Seq<char>>|
        spec_base64_lines(body) && text == spec_pem_frame(tag, body, crlf);
    lemma_read_back_base64_block(tag, body, crlf);
}

} // verus!

verus! {

/// The base64 digit for a 6-bit value, standard alphabet.
pub open spec fn spec_base64_digit(v: int) -> char {
    if v < 26 {
        (65 + v) as char
    } else if v < 52 {
        (97 + v - 26) as char
    } else if v < 62 {
        (48 + v - 52) as char
    } else if v == 62 {
        '+'
    } else {
        '/'
    }
}

/// The standard base64 encoding of `bytes`, padded with `'='` to a multiple of four characters.
pub open spec fn spec_base64(bytes: Seq<u8>) -> Seq<char>
    decreases bytes.len(),
{
    if bytes.len() == 0 {
        seq![]
    } else if bytes.len() == 1 {
        let b0 = bytes[0] as int;
        seq![spec_base64_digit(b0 / 4), spec_base64_digit((b0 % 4) * 16), '=', '=']
    } else if bytes.len() == 2 {
        let b0 = bytes[0] as int;
        let b1 = bytes[1] as int;
        seq![
            spec_base64_digit(b0 / 4),
            spec_base64_digit((b0 % 4) * 16 + b1 / 16),
            spec_base64_digit((b1 % 16) * 4),
            '=',
        ]
    } else {
        let b0 = bytes[0] as int;
        let b1 = bytes[1] as int;
        let b2 = bytes[2] as int;
        seq![
            spec_base64_digit(b0 / 4),
            spec_base64_digit((b0 % 4) * 16 + b1 / 16),
            spec_base64_digit((b1 % 16) * 4 + b2 / 64),
            spec_base64_digit(b2 % 64),
        ] + spec_base64(bytes.skip(3))
    }
}

/// A text cut into lines of 64 characters, the last one shorter if the length is no multiple
/// of 64; no line for an empty text.
pub open spec fn spec_chunk_lines(s: Seq<char>) -> Seq<Seq<char>>
    decreases s.len(),
{
    if s.len() == 0 {
        seq![]
    } else if s.len() <= 64 {
        seq![s]
    } else {
        seq![s.take(64)] + spec_chunk_lines(s.skip(64))
    }
}

/// The PEM block that `pem::encode_config` writes for label `tag` and contents `der`: the
/// base64 of the contents cut into lines of 64 characters between the BEGIN and END lines.
pub open spec fn spec_pem_text(tag: Seq<char>, der: Seq<u8>, crlf: bool) -> Seq<char> {
    spec_pem_frame(tag, spec_chunk_lines(spec_base64(der)), crlf)
}

proof fn lemma_base64_digit(v: int)
    requires
        0 <= v < 64,
    ensures
        spec_is_base64_char(spec_base64_digit(v)),
{
}

/// Base64 text holds only base64 characters, and it is empty only for no bytes.
pub proof fn lemma_base64_chars(bytes: Seq<u8>)
    ensures
        forall|k: int|
            0 <= k < spec_base64(bytes).len() ==> spec_is_base64_char(#[trigger] spec_base64(bytes)[k]),
        (spec_base64(bytes).len() == 0) == (bytes.len() == 0),
    decreases bytes.len(),
{
    let e = spec_base64(bytes);
    if bytes.len() == 0 {
    } else {
        let b0 = bytes[0] as int;
        lemma_base64_digit(b0 / 4);
        if bytes.len() == 1 {
            lemma_base64_digit((b0 % 4) * 16);
        } else {
            let b1 = bytes[1] as int;
            lemma_base64_digit((b0 % 4) * 16 + b1 / 16);
            if bytes.len() == 2 {
                lemma_base64_digit((b1 % 16) * 4);
            } else {
                let b2 = bytes[2] as int;
                lemma_base64_digit((b1 % 16) * 4 + b2 / 64);
                lemma_base64_digit(b2 % 64);
                lemma_base64_chars(bytes.skip(3));
                let head = seq![
                    spec_base64_digit(b0 / 4),
                    spec_base64_digit((b0 % 4) * 16 + b1 / 16),
                    spec_base64_digit((b1 % 16) * 4 + b2 / 64),
                    spec_base64_digit(b2 % 64),
                ];
                let tail = spec_base64(bytes.skip(3));
                assert(e == head + tail);
                assert forall|k: int| 0 <= k < e.len() implies spec_is_base64_char(#[trigger] e[k]) by {
                    if k >= 4 {
                        assert(e[k] == tail[k - 4]);
                    }
                }
            }
        }
    }
}

/// Cutting base64 text into lines loses nothing and gives payload lines as PEM encoding
/// writes them: base64 characters, at most 64 to a line.
pub proof fn lemma_chunk_lines(s: Seq<char>)
    requires
        forall|k: int| 0 <= k < s.len() ==> spec_is_base64_char(#[trigger] s[k]),
    ensures
        spec_concat(spec_chunk_lines(s)) == s,
        spec_base64_lines(spec_chunk_lines(s)),
    decreases s.len(),
{
    let c = spec_chunk_lines(s);
    if s.len() == 0 {
    } else if s.len() <= 64 {
        assert(c.drop_first() =~= Seq::<Seq<char>>::empty());
        assert(spec_concat(c.drop_first()) == Seq::<char>::empty());
        assert(spec_concat(c) =~= s);
        assert forall|i: int, k: int| 0 <= i < c.len() && 0 <= k < c[i].len() implies spec_is_base64_char(
            #[trigger] c[i][k],
        ) by {
            assert(c[i][k] == s[k]);
        }
    } else {
        let rest = s.skip(64);
        assert forall|k: int| 0 <= k < rest.len() implies spec_is_base64_char(#[trigger] rest[k]) by {
            assert(rest[k] == s[k + 64]);
        }
        lemma_chunk_lines(rest);
        let cr = spec_chunk_lines(rest);
        assert(c[0] == s.take(64));
        assert(c.drop_first() =~= cr);
        assert(s.take(64) + rest =~= s);
        assert forall|i: int| 0 <= i < c.len() implies #[trigger] c[i].len() <= 64 by {
            if i > 0 {
                assert(c[i] == cr[i - 1]);
            }
        }
        assert forall|i: int, k: int| 0 <= i < c.len() && 0 <= k < c[i].len() implies spec_is_base64_char(
            #[trigger] c[i][k],
        ) by {
            if i == 0 {
                assert(c[i][k] == s[k]);
            } else {
                assert(c[i] == cr[i - 1]);
                assert(spec_is_base64_char(cr[i - 1][k]));
            }
        }
    }
}

/// The base64 of some bytes cut into lines of 64 characters gives payload lines as PEM
/// encoding writes them, which together are that base64 text.
pub proof fn lemma_base64_chunk_lines(bytes: Seq<u8>)
    ensures
        spec_base64_lines(spec_chunk_lines(spec_base64(bytes))),
        spec_concat(spec_chunk_lines(spec_base64(bytes))) == spec_base64(bytes),
{
    lemma_base64_chars(bytes);
    lemma_chunk_lines(spec_base64(bytes));
}

/// Reading back a PEM block as PEM encoding writes it gives the base64 of its contents.
pub proof fn lemma_read_back_pem_contents(tag: Seq<char>, der: Seq<u8>, crlf: bool)
    requires
        forall|k: int| 0 <= k < tag.len() ==> tag[k] != '\n',
    ensures
        spec_is_pem_block(spec_pem_text(tag, der, crlf), tag, crlf),
        spec_pem_body(spec_pem_text(tag, der, crlf)) == spec_base64(der),
{
    lemma_base64_chunk_lines(der);
    lemma_read_back_base64_block(tag, spec_chunk_lines(spec_base64(der)), crlf);
}

} // verus!

verus! {

/// The text with every `"\r\n"` replaced by `"\n"`.
pub open spec fn spec_crlf_to_lf(s: Seq<char>) -> Seq<char>
    decreases s.len(),
{
    if s.len() == 0 {
        seq![]
    } else if s.len() >= 2 && s[0] == '\r' && s[1] == '\n' {
        seq!['\n'] + spec_crlf_to_lf(s.skip(2))
    } else {
        seq![s[0]] + spec_crlf_to_lf(s.drop_first())
    }
}

/// Every carriage return in the text stands just before a line feed.
pub open spec fn spec_cr_only_before_lf(s: Seq<char>) -> bool {
    forall|i: int| 0 <= i < s.len() && #[trigger] s[i] == '\r' ==> i + 1 < s.len() && s[i + 1] == '\n'
}

proof fn lemma_lines_crlf_to_lf(s: Seq<char>, cur: Seq<char>)
    requires
        spec_cr_only_before_lf(s),
        forall|k: int| 0 <= k < cur.len() ==> cur[k] != '\r',
    ensures
        spec_lines_from(s, cur) == spec_lines_from(spec_crlf_to_lf(s), cur),
    decreases s.len(),
{
    let t = spec_crlf_to_lf(s);
    let empty = Seq::<char>::empty();
    if s.len() == 0 {
    } else if s.len() >= 2 && s[0] == '\r' && s[1] == '\n' {
        let rest = s.skip(2);
        assert forall|i: int| 0 <= i < rest.len() && #[trigger] rest[i] == '\r' implies i + 1
            < rest.len() && rest[i + 1] == '\n' by {
            assert(rest[i] == s[i + 2]);
        }
        lemma_lines_crlf_to_lf(rest, empty);
        // In `s` the carriage return joins the line and is stripped at the line feed.
        assert(s.drop_first()[0] == '\n');
        assert(s.drop_first().drop_first() =~= rest);
        assert(spec_lines_from(s, cur) == spec_lines_from(s.drop_first(), cur.push('\r')));
        assert(spec_strip_cr(cur.push('\r')) =~= cur);
        assert(t[0] == '\n');
        assert(t.drop_first() =~= spec_crlf_to_lf(rest));
        if cur.len() > 0 {
            assert(cur.last() != '\r');
        }
    } else {
        let rest = s.drop_first();
        assert(s[0] != '\r');
        assert forall|i: int| 0 <= i < rest.len() && #[trigger] rest[i] == '\r' implies i + 1
            < rest.len() && rest[i + 1] == '\n' by {
            assert(rest[i] == s[i + 1]);
        }
        assert(t[0] == s[0]);
        assert(t.drop_first() =~= spec_crlf_to_lf(rest));
        if s[0] == '\n' {
            lemma_lines_crlf_to_lf(rest, empty);
        } else {
            assert forall|k: int| 0 <= k < cur.push(s[0]).len() implies cur.push(s[0])[k]
                != '\r' by {
                if k < cur.len() {
                    assert(cur.push(s[0])[k] == cur[k]);
                }
            }
            lemma_lines_crlf_to_lf(rest, cur.push(s[0]));
        }
    }
}

/// The key reader does not depend on the line ending: a text whose carriage returns all stand
/// before line feeds reads back as the same text with `"\r\n"` replaced by `"\n"`.
pub proof fn lemma_read_back_line_endings(s: Seq<char>)
    requires
        spec_cr_only_before_lf(s),
    ensures
        spec_pem_body(s) == spec_pem_body(spec_crlf_to_lf(s)),
{
    lemma_lines_crlf_to_lf(s, Seq::<char>::empty());
}

} // verus!

verus! {

proof fn lemma_lines_no_newline(a: Seq<char>, cur: Seq<char>)
    requires
        forall|k: int| 0 <= k < a.len() ==> a[k] != '\n',
    ensures
        spec_lines_from(a, cur) == (if cur.len() + a.len() == 0 {
            Seq::<Seq<char>>::empty()
        } else {
            seq![cur + a]
        }),
    decreases a.len(),
{
    if a.len() == 0 {
        assert(cur + a =~= cur);
    } else {
        assert(a[0] != '\n');
        lemma_lines_no_newline(a.drop_first(), cur.push(a[0]));
        assert(cur.push(a[0]) + a.drop_first() =~= cur + a);
    }
}

/// A text with no line feed reads back as itself, unless it starts with `'-'`, when it reads
/// back as nothing.
pub proof fn lemma_pem_body_single_line(a: Seq<char>)
    requires
        forall|k: int| 0 <= k < a.len() ==> a[k] != '\n',
    ensures
        spec_pem_body(a) == (if spec_is_armor_line(a) {
            Seq::<char>::empty()
        } else {
            a
        }),
{
    let empty = Seq::<char>::empty();
    lemma_lines_no_newline(a, empty);
    assert(empty + a =~= a);
    if a.len() > 0 {
        lemma_join_body_prepend(a, Seq::<Seq<char>>::empty());
        assert(seq![a] + Seq::<Seq<char>>::empty() =~= seq![a]);
        assert(spec_join_body(Seq::<Seq<char>>::empty()) == empty);
        assert(a + empty =~= a);
    }
}

/// Reading back goes line by line: the first line, without a carriage return before its line
/// feed, is kept whole unless it starts with `'-'`, and the rest of the text reads back on its
/// own after it.
pub proof fn lemma_pem_body_first_line(a: Seq<char>, b: Seq<char>)
    requires
        forall|k: int| 0 <= k < a.len() ==> a[k] != '\n',
    ensures
        spec_pem_body(a + seq!['\n'] + b) == (if spec_is_armor_line(spec_strip_cr(a)) {
            Seq::<char>::empty()
        } else {
            spec_strip_cr(a)
        }) + spec_pem_body(b),
{
    let empty = Seq::<char>::empty();
    lemma_lines_step(a, b, empty);
    assert(empty + a =~= a);
    lemma_join_body_prepend(spec_strip_cr(a), spec_lines_from(b, empty));
}

} // verus!
