//! One execution in the sandbox runner: the request it is sent, the response it
//! answers with, and how its output is read back.
use crate::codec::{
    blob_le, fits_i32, i32_le, i64_le, read_bytes, read_count, read_i32, read_i64, read_string,
    read_strings, take_blob, take_count, take_i32, take_i64, take_text, take_texts, text_le,
    texts_fit, texts_le, write_bytes, write_i32, write_i64, write_str, ByteReader, CodecError,
};
use vstd::bytes::*;
use vstd::prelude::*;
use vstd::string::*;
use vstd::utf8::*;

verus! {

broadcast use {encode_utf8_valid_utf8, encode_utf8_decode_utf8};

/// The coarse outcome that the runner reports for one execution.
#[derive(Clone, Copy, Debug, PartialEq, Eq, Structural)]
pub enum Verdict {
    /// The program ran to completion.
    Success,
    Tle,
    Mle,
    Re,
    Uke,
}

/// The verdict that a code of the protocol stands for.
pub open spec fn verdict_of(code: i32) -> Verdict {
    if code == 0 {
        Verdict::Success
    } else if code == 1 {
        Verdict::Tle
    } else if code == 2 {
        Verdict::Mle
    } else if code == 3 {
        Verdict::Re
    } else {
        Verdict::Uke
    }
}

impl From<i32> for Verdict {
    fn from(v: i32) -> (r: Verdict) {
        match v {
            0 => Verdict::Success,
            1 => Verdict::Tle,
            2 => Verdict::Mle,
            3 => Verdict::Re,
            _ => Verdict::Uke,
        }
    }
}

impl vstd::std_specs::convert::FromSpecImpl<i32> for Verdict {
    open spec fn obeys_from_spec() -> bool {
        true
    }

    open spec fn from_spec(v: i32) -> Verdict {
        verdict_of(v)
    }
}

/// A file written into the sandbox before the program runs.
#[derive(Clone)]
pub struct FileInput {
    pub filename: String,
    pub content: Vec<u8>,
    /// Unix permission bits.
    pub mode: i32,
}

impl FileInput {
    /// A file whose content is the UTF-8 encoding of `content`.
    pub fn text(filename: &str, content: &str, mode: i32) -> (r: FileInput)
        ensures
            r.filename@ == filename@,
            r.content@ == encode_utf8(content@),
            r.mode == mode,
    {
        FileInput {
            filename: filename.to_owned(),
            content: vstd::slice::slice_to_vec(content.as_bytes()),
            mode,
        }
    }
}

/// Everything the runner needs for one confined execution.
pub struct SandboxRequest {
    pub time_limit_ms: i32,
    pub memory_limit_mb: i64,
    pub pids_limit: i32,
    pub rootfs: String,
    pub tmpfs_size: String,
    pub cgroup: String,
    pub sandbox_id: String,
    pub stdin_content: String,
    pub cmdline: Vec<String>,
    pub files: Vec<FileInput>,
    pub output_filenames: Vec<String>,
}

/// A request as plain values.
pub struct RequestView {
    pub time_limit_ms: i32,
    pub memory_limit_mb: i64,
    pub pids_limit: i32,
    pub rootfs: Seq<char>,
    pub tmpfs_size: Seq<char>,
    pub cgroup: Seq<char>,
    pub sandbox_id: Seq<char>,
    pub stdin_content: Seq<char>,
    pub cmdline: Seq<Seq<char>>,
    pub files: Seq<(Seq<char>, Seq<u8>, i32)>,
    pub output_filenames: Seq<Seq<char>>,
}

pub open spec fn texts_view(v: Seq<String>) -> Seq<Seq<char>> {
    v.map_values(|s: String| s@)
}

pub open spec fn files_view(v: Seq<FileInput>) -> Seq<(Seq<char>, Seq<u8>, i32)> {
    v.map_values(|f: FileInput| (f.filename@, f.content@, f.mode))
}

impl View for SandboxRequest {
    type V = RequestView;

    open spec fn view(&self) -> RequestView {
        RequestView {
            time_limit_ms: self.time_limit_ms,
            memory_limit_mb: self.memory_limit_mb,
            pids_limit: self.pids_limit,
            rootfs: self.rootfs@,
            tmpfs_size: self.tmpfs_size@,
            cgroup: self.cgroup@,
            sandbox_id: self.sandbox_id@,
            stdin_content: self.stdin_content@,
            cmdline: texts_view(self.cmdline@),
            files: files_view(self.files@),
            output_filenames: texts_view(self.output_filenames@),
        }
    }
}

/// One input file on the wire: name, content, mode.
pub open spec fn file_le(f: (Seq<char>, Seq<u8>, i32)) -> Seq<u8> {
    text_le(f.0) + blob_le(f.1) + i32_le(f.2)
}

pub open spec fn files_le(fs: Seq<(Seq<char>, Seq<u8>, i32)>) -> Seq<u8>
    decreases fs.len(),
{
    if fs.len() == 0 {
        Seq::empty()
    } else {
        files_le(fs.drop_last()) + file_le(fs.last())
    }
}

/// The bytes of a request, field by field in protocol order.
pub open spec fn request_bytes(q: RequestView) -> Seq<u8> {
    i32_le(q.time_limit_ms) + i64_le(q.memory_limit_mb) + i32_le(q.pids_limit) + text_le(q.rootfs)
        + text_le(q.tmpfs_size) + text_le(q.cgroup) + text_le(q.sandbox_id) + text_le(
        q.stdin_content,
    ) + i32_le(q.cmdline.len() as i32) + texts_le(q.cmdline) + i32_le(q.files.len() as i32)
        + files_le(q.files) + i32_le(q.output_filenames.len() as i32) + texts_le(
        q.output_filenames,
    )
}

/// Every length and count of the request fits its `i32` field.
pub open spec fn request_fits(q: RequestView) -> bool {
    &&& fits_i32(encode_utf8(q.rootfs).len() as int)
    &&& fits_i32(encode_utf8(q.tmpfs_size).len() as int)
    &&& fits_i32(encode_utf8(q.cgroup).len() as int)
    &&& fits_i32(encode_utf8(q.sandbox_id).len() as int)
    &&& fits_i32(encode_utf8(q.stdin_content).len() as int)
    &&& fits_i32(q.cmdline.len() as int)
    &&& texts_fit(q.cmdline)
    &&& fits_i32(q.files.len() as int)
    &&& forall|i: int|
        0 <= i < q.files.len() ==> fits_i32(encode_utf8((#[trigger] q.files[i]).0).len() as int)
            && fits_i32(q.files[i].1.len() as int)
    &&& fits_i32(q.output_filenames.len() as int)
    &&& texts_fit(q.output_filenames)
}

/// One input file read at `pos`.
pub open spec fn take_file(b: Seq<u8>, pos: int) -> Option<((Seq<char>, Seq<u8>, i32), int)> {
    match take_text(b, pos) {
        Some((name, p1)) => match take_blob(b, p1) {
            Some((content, p2)) => match take_i32(b, p2) {
                Some((mode, p3)) => Some(((name, content, mode), p3)),
                None => None,
            },
            None => None,
        },
        None => None,
    }
}

pub open spec fn take_files(b: Seq<u8>, pos: int, n: nat) -> Option<
    (Seq<(Seq<char>, Seq<u8>, i32)>, int),
>
    decreases n,
{
    if n == 0 {
        Some((Seq::empty(), pos))
    } else {
        match take_files(b, pos, (n - 1) as nat) {
            Some((xs, p)) => match take_file(b, p) {
                Some((x, q)) => Some((xs.push(x), q)),
                None => None,
            },
            None => None,
        }
    }
}

/// The request that a byte stream holds, read field by field; trailing bytes are ignored.
pub open spec fn parse_request(b: Seq<u8>) -> Option<RequestView> {
    match take_i32(b, 0) {
        None => None,
        Some((tl, p1)) => match take_i64(b, p1) {
            None => None,
            Some((ml, p2)) => match take_i32(b, p2) {
                None => None,
                Some((pids, p3)) => match take_text(b, p3) {
                    None => None,
                    Some((rootfs, p4)) => match take_text(b, p4) {
                        None => None,
                        Some((tmpfs, p5)) => match take_text(b, p5) {
                            None => None,
                            Some((cgroup, p6)) => match take_text(b, p6) {
                                None => None,
                                Some((sid, p7)) => match take_text(b, p7) {
                                    None => None,
                                    Some((stdin, p8)) => parse_request_lists(
                                        b,
                                        p8,
                                        tl,
                                        ml,
                                        pids,
                                        rootfs,
                                        tmpfs,
                                        cgroup,
                                        sid,
                                        stdin,
                                    ),
                                },
                            },
                        },
                    },
                },
            },
        },
    }
}

/// The three lists that close a request, read from `pos`.
pub open spec fn parse_request_lists(
    b: Seq<u8>,
    pos: int,
    tl: i32,
    ml: i64,
    pids: i32,
    rootfs: Seq<char>,
    tmpfs: Seq<char>,
    cgroup: Seq<char>,
    sid: Seq<char>,
    stdin: Seq<char>,
) -> Option<RequestView> {
    match take_count(b, pos) {
        None => None,
        Some((nc, p1)) => match take_texts(b, p1, nc) {
            None => None,
            Some((cmdline, p2)) => match take_count(b, p2) {
                None => None,
                Some((nf, p3)) => match take_files(b, p3, nf) {
                    None => None,
                    Some((files, p4)) => match take_count(b, p4) {
                        None => None,
                        Some((no, p5)) => match take_texts(b, p5, no) {
                            None => None,
                            Some((outs, _p6)) => Some(
                                RequestView {
                                    time_limit_ms: tl,
                                    memory_limit_mb: ml,
                                    pids_limit: pids,
                                    rootfs,
                                    tmpfs_size: tmpfs,
                                    cgroup,
                                    sandbox_id: sid,
                                    stdin_content: stdin,
                                    cmdline,
                                    files,
                                    output_filenames: outs,
                                },
                            ),
                        },
                    },
                },
            },
        },
    }
}

fn write_strings(w: &mut Vec<u8>, v: &Vec<String>)
    requires
        fits_i32(v@.len() as int),
        texts_fit(texts_view(v@)),
    ensures
        final(w)@ == old(w)@ + i32_le(v@.len() as i32) + texts_le(texts_view(v@)),
{
    write_i32(w, v.len() as i32);
    let ghost base = w@;
    let mut i: usize = 0;
    while i < v.len()
        invariant
            i <= v@.len(),
            texts_fit(texts_view(v@)),
            w@ == base + texts_le(texts_view(v@).take(i as int)),
        decreases v@.len() - i,
    {
        assert(texts_view(v@)[i as int] == v@[i as int]@);
        write_str(w, v[i].as_str());
        assert(texts_view(v@).take(i + 1).drop_last() =~= texts_view(v@).take(i as int));
        i = i + 1;
    }
    assert(texts_view(v@).take(v@.len() as int) =~= texts_view(v@));
}

fn write_files(w: &mut Vec<u8>, v: &Vec<FileInput>)
    requires
        fits_i32(v@.len() as int),
        forall|i: int|
            0 <= i < v@.len() ==> fits_i32(encode_utf8((#[trigger] files_view(v@)[i]).0).len() as int)
                && fits_i32(files_view(v@)[i].1.len() as int),
    ensures
        final(w)@ == old(w)@ + i32_le(v@.len() as i32) + files_le(files_view(v@)),
{
    write_i32(w, v.len() as i32);
    let ghost base = w@;
    let mut i: usize = 0;
    while i < v.len()
        invariant
            i <= v@.len(),
            forall|i: int|
                0 <= i < v@.len() ==> fits_i32(
                    encode_utf8((#[trigger] files_view(v@)[i]).0).len() as int,
                ) && fits_i32(files_view(v@)[i].1.len() as int),
            w@ == base + files_le(files_view(v@).take(i as int)),
        decreases v@.len() - i,
    {
        let f = &v[i];
        assert(files_view(v@)[i as int] == (f.filename@, f.content@, f.mode));
        let ghost before = w@;
        write_str(w, f.filename.as_str());
        write_bytes(w, f.content.as_slice());
        write_i32(w, f.mode);
        assert(w@ =~= before + file_le(files_view(v@)[i as int]));
        assert(files_view(v@).take(i + 1).drop_last() =~= files_view(v@).take(i as int));
        i = i + 1;
    }
    assert(files_view(v@).take(v@.len() as int) =~= files_view(v@));
}

/// The bytes that the runner reads for `q`.
pub fn encode_request(q: &SandboxRequest) -> (r: Vec<u8>)
    requires
        request_fits(q@),
    ensures
        r@ == request_bytes(q@),
{
    let mut w: Vec<u8> = Vec::new();
    write_i32(&mut w, q.time_limit_ms);
    write_i64(&mut w, q.memory_limit_mb);
    write_i32(&mut w, q.pids_limit);
    write_str(&mut w, q.rootfs.as_str());
    write_str(&mut w, q.tmpfs_size.as_str());
    write_str(&mut w, q.cgroup.as_str());
    write_str(&mut w, q.sandbox_id.as_str());
    write_str(&mut w, q.stdin_content.as_str());
    assert(q@.files.len() == q.files@.len());
    write_strings(&mut w, &q.cmdline);
    write_files(&mut w, &q.files);
    write_strings(&mut w, &q.output_filenames);
    assert(w@ =~= request_bytes(q@));
    w
}

fn read_files(r: &mut ByteReader, n: usize) -> (res: Result<Vec<FileInput>, CodecError>)
    requires
        old(r).wf(),
    ensures
        final(r).wf(),
        final(r).buf@ == old(r).buf@,
        match take_files(old(r).buf@, old(r).pos as int, n as nat) {
            Some((v, p)) => res is Ok && files_view(res.unwrap()@) == v && final(r).pos == p,
            None => res is Err,
        },
{
    let ghost start = r.pos as int;
    let mut out: Vec<FileInput> = Vec::new();
    let mut i: usize = 0;
    while i < n
        invariant
            r.wf(),
            r.buf@ == old(r).buf@,
            start == old(r).pos as int,
            i <= n,
            out@.len() == i,
            take_files(r.buf@, start, i as nat) == Some((files_view(out@), r.pos as int)),
        decreases n - i,
    {
        let ghost before = files_view(out@);
        let ghost p = r.pos as int;
        let filename = match read_string(r) {
            Ok(v) => v,
            Err(e) => {
                proof {
                    lemma_take_files_stops(r.buf@, start, i as nat, n as nat);
                }
                return Err(e);
            },
        };
        let content = match read_bytes(r) {
            Ok(v) => v,
            Err(e) => {
                proof {
                    lemma_take_files_stops(r.buf@, start, i as nat, n as nat);
                }
                return Err(e);
            },
        };
        let mode = match read_i32(r) {
            Ok(v) => v,
            Err(e) => {
                proof {
                    lemma_take_files_stops(r.buf@, start, i as nat, n as nat);
                }
                return Err(e);
            },
        };
        out.push(FileInput { filename, content, mode });
        i = i + 1;
        assert(files_view(out@) =~= before.push(files_view(out@).last()));
    }
    Ok(out)
}

proof fn lemma_take_files_stops(b: Seq<u8>, pos: int, i: nat, n: nat)
    requires
        i < n,
        take_files(b, pos, i) is Some,
        take_file(b, take_files(b, pos, i).unwrap().1) is None,
    ensures
        take_files(b, pos, n) is None,
    decreases n - i,
{
    if n != i + 1 {
        lemma_take_files_stops(b, pos, i, (n - 1) as nat);
    }
}

/// Reads a request as the runner does; the inverse of `encode_request`.
pub fn decode_request(bytes: Vec<u8>) -> (r: Result<SandboxRequest, CodecError>)
    ensures
        match r {
            Ok(q) => parse_request(bytes@) == Some(q@),
            Err(_) => parse_request(bytes@) is None,
        },
{
    let mut rd = ByteReader::new(bytes);
    let time_limit_ms = read_i32(&mut rd)?;
    let memory_limit_mb = read_i64(&mut rd)?;
    let pids_limit = read_i32(&mut rd)?;
    let rootfs = read_string(&mut rd)?;
    let tmpfs_size = read_string(&mut rd)?;
    let cgroup = read_string(&mut rd)?;
    let sandbox_id = read_string(&mut rd)?;
    let stdin_content = read_string(&mut rd)?;
    let nc = read_count(&mut rd)?;
    let cmdline = read_strings(&mut rd, nc)?;
    let nf = read_count(&mut rd)?;
    let files = read_files(&mut rd, nf)?;
    let no = read_count(&mut rd)?;
    let output_filenames = read_strings(&mut rd, no)?;
    Ok(
        SandboxRequest {
            time_limit_ms,
            memory_limit_mb,
            pids_limit,
            rootfs,
            tmpfs_size,
            cgroup,
            sandbox_id,
            stdin_content,
            cmdline,
            files,
            output_filenames,
        },
    )
}

proof fn lemma_split(b: Seq<u8>, pos: int, x: Seq<u8>, y: Seq<u8>)
    requires
        0 <= pos,
        pos + x.len() + y.len() <= b.len(),
        b.subrange(pos, pos + x.len() + y.len()) == x + y,
    ensures
        b.subrange(pos, pos + x.len()) == x,
        b.subrange(pos + x.len(), pos + x.len() + y.len()) == y,
{
    assert(b.subrange(pos, pos + x.len()) =~= (x + y).subrange(0, x.len() as int));
    assert(b.subrange(pos, pos + x.len()) =~= x);
    assert(b.subrange(pos + x.len(), pos + x.len() + y.len()) =~= (x + y).subrange(
        x.len() as int,
        (x.len() + y.len()) as int,
    ));
    assert(b.subrange(pos + x.len(), pos + x.len() + y.len()) =~= y);
}

proof fn lemma_take_i32_at(b: Seq<u8>, pos: int, v: i32)
    requires
        0 <= pos,
        pos + 4 <= b.len(),
        b.subrange(pos, pos + 4) == i32_le(v),
    ensures
        take_i32(b, pos) == Some((v, pos + 4)),
{
    vstd::bytes::lemma_auto_spec_u32_to_from_le_bytes();
    assert(spec_u32_to_le_bytes(v as u32).len() == 4);
    assert(spec_u32_from_le_bytes(spec_u32_to_le_bytes(v as u32)) == v as u32);
    assert(((v as u32) as i32) == v) by (bit_vector);
}

proof fn lemma_take_i64_at(b: Seq<u8>, pos: int, v: i64)
    requires
        0 <= pos,
        pos + 8 <= b.len(),
        b.subrange(pos, pos + 8) == i64_le(v),
    ensures
        take_i64(b, pos) == Some((v, pos + 8)),
{
    vstd::bytes::lemma_auto_spec_u64_to_from_le_bytes();
    assert(spec_u64_to_le_bytes(v as u64).len() == 8);
    assert(spec_u64_from_le_bytes(spec_u64_to_le_bytes(v as u64)) == v as u64);
    assert(((v as u64) as i64) == v) by (bit_vector);
}

proof fn lemma_take_count_at(b: Seq<u8>, pos: int, n: nat)
    requires
        0 <= pos,
        fits_i32(n as int),
        pos + 4 <= b.len(),
        b.subrange(pos, pos + 4) == i32_le(n as i32),
    ensures
        take_count(b, pos) == Some((n, pos + 4)),
{
    lemma_take_i32_at(b, pos, n as i32);
}

proof fn lemma_take_blob_at(b: Seq<u8>, pos: int, x: Seq<u8>)
    requires
        0 <= pos,
        fits_i32(x.len() as int),
        pos + blob_le(x).len() <= b.len(),
        b.subrange(pos, pos + blob_le(x).len()) == blob_le(x),
    ensures
        take_blob(b, pos) == Some((x, pos + blob_le(x).len())),
{
    vstd::bytes::lemma_auto_spec_u32_to_from_le_bytes();
    lemma_split(b, pos, i32_le(x.len() as i32), x);
    lemma_take_i32_at(b, pos, x.len() as i32);
}

proof fn lemma_take_text_at(b: Seq<u8>, pos: int, s: Seq<char>)
    requires
        0 <= pos,
        fits_i32(encode_utf8(s).len() as int),
        pos + text_le(s).len() <= b.len(),
        b.subrange(pos, pos + text_le(s).len()) == text_le(s),
    ensures
        take_text(b, pos) == Some((s, pos + text_le(s).len())),
{
    lemma_take_blob_at(b, pos, encode_utf8(s));
}

proof fn lemma_take_texts_at(b: Seq<u8>, pos: int, ss: Seq<Seq<char>>)
    requires
        0 <= pos,
        texts_fit(ss),
        pos + texts_le(ss).len() <= b.len(),
        b.subrange(pos, pos + texts_le(ss).len()) == texts_le(ss),
    ensures
        take_texts(b, pos, ss.len()) == Some((ss, pos + texts_le(ss).len())),
    decreases ss.len(),
{
    if ss.len() > 0 {
        let init = ss.drop_last();
        vstd::bytes::lemma_auto_spec_u32_to_from_le_bytes();
        lemma_split(b, pos, texts_le(init), text_le(ss.last()));
        assert(texts_fit(init)) by {
            assert forall|i: int| 0 <= i < init.len() implies fits_i32(
                #[trigger] encode_utf8(init[i]).len() as int,
            ) by {
                assert(init[i] == ss[i]);
            }
        }
        lemma_take_texts_at(b, pos, init);
        assert(encode_utf8(ss[ss.len() - 1]).len() <= i32::MAX);
        lemma_take_text_at(b, pos + texts_le(init).len(), ss.last());
        assert(init.push(ss.last()) =~= ss);
    }
}

proof fn lemma_take_files_at(b: Seq<u8>, pos: int, fs: Seq<(Seq<char>, Seq<u8>, i32)>)
    requires
        0 <= pos,
        forall|i: int|
            0 <= i < fs.len() ==> fits_i32(encode_utf8((#[trigger] fs[i]).0).len() as int)
                && fits_i32(fs[i].1.len() as int),
        pos + files_le(fs).len() <= b.len(),
        b.subrange(pos, pos + files_le(fs).len()) == files_le(fs),
    ensures
        take_files(b, pos, fs.len()) == Some((fs, pos + files_le(fs).len())),
    decreases fs.len(),
{
    if fs.len() > 0 {
        let init = fs.drop_last();
        let f = fs.last();
        vstd::bytes::lemma_auto_spec_u32_to_from_le_bytes();
        lemma_split(b, pos, files_le(init), file_le(f));
        assert forall|i: int| 0 <= i < init.len() implies fits_i32(
            encode_utf8((#[trigger] init[i]).0).len() as int,
        ) && fits_i32(init[i].1.len() as int) by {
            assert(init[i] == fs[i]);
        }
        lemma_take_files_at(b, pos, init);
        let p = pos + files_le(init).len();
        assert(fs[fs.len() - 1] == f);
        lemma_split(b, p, text_le(f.0) + blob_le(f.1), i32_le(f.2));
        lemma_split(b, p, text_le(f.0), blob_le(f.1));
        lemma_take_text_at(b, p, f.0);
        lemma_take_blob_at(b, p + text_le(f.0).len(), f.1);
        lemma_take_i32_at(b, p + text_le(f.0).len() + blob_le(f.1).len(), f.2);
        assert(init.push(f) =~= fs);
    }
}

/// The bytes of the three lists that close a request.
pub open spec fn request_lists_bytes(q: RequestView) -> Seq<u8> {
    i32_le(q.cmdline.len() as i32) + texts_le(q.cmdline) + i32_le(q.files.len() as i32)
        + files_le(q.files) + i32_le(q.output_filenames.len() as i32) + texts_le(
        q.output_filenames,
    )
}

proof fn lemma_request_lists_at(b: Seq<u8>, pos: int, q: RequestView)
    requires
        request_fits(q),
        0 <= pos,
        pos + request_lists_bytes(q).len() <= b.len(),
        b.subrange(pos, pos + request_lists_bytes(q).len()) == request_lists_bytes(q),
    ensures
        parse_request_lists(
            b,
            pos,
            q.time_limit_ms,
            q.memory_limit_mb,
            q.pids_limit,
            q.rootfs,
            q.tmpfs_size,
            q.cgroup,
            q.sandbox_id,
            q.stdin_content,
        ) == Some(q),
{
    vstd::bytes::lemma_auto_spec_u32_to_from_le_bytes();
    let x9 = i32_le(q.cmdline.len() as i32);
    let x10 = texts_le(q.cmdline);
    let x11 = i32_le(q.files.len() as i32);
    let x12 = files_le(q.files);
    let x13 = i32_le(q.output_filenames.len() as i32);
    let x14 = texts_le(q.output_filenames);
    lemma_split(b, pos, x9 + x10 + x11 + x12 + x13, x14);
    lemma_split(b, pos, x9 + x10 + x11 + x12, x13);
    lemma_split(b, pos, x9 + x10 + x11, x12);
    lemma_split(b, pos, x9 + x10, x11);
    lemma_split(b, pos, x9, x10);
    lemma_take_count_at(b, pos, q.cmdline.len());
    lemma_take_texts_at(b, pos + 4, q.cmdline);
    lemma_take_count_at(b, pos + 4 + x10.len() as int, q.files.len());
    lemma_take_files_at(b, pos + 8 + x10.len() as int, q.files);
    lemma_take_count_at(b, pos + 8 + x10.len() as int + x12.len() as int, q.output_filenames.len());
    lemma_take_texts_at(b, pos + 12 + x10.len() as int + x12.len() as int, q.output_filenames);
}

/// Decoding the encoding of a request gives back every field of it.
pub proof fn lemma_request_round_trip(q: RequestView)
    requires
        request_fits(q),
    ensures
        parse_request(request_bytes(q)) == Some(q),
{
    vstd::bytes::lemma_auto_spec_u32_to_from_le_bytes();
    vstd::bytes::lemma_auto_spec_u64_to_from_le_bytes();
    let b = request_bytes(q);
    let x1 = i32_le(q.time_limit_ms);
    let x2 = i64_le(q.memory_limit_mb);
    let x3 = i32_le(q.pids_limit);
    let x4 = text_le(q.rootfs);
    let x5 = text_le(q.tmpfs_size);
    let x6 = text_le(q.cgroup);
    let x7 = text_le(q.sandbox_id);
    let x8 = text_le(q.stdin_content);
    let xl = request_lists_bytes(q);
    assert(b =~= x1 + x2 + x3 + x4 + x5 + x6 + x7 + x8 + xl);
    assert(b.subrange(0, b.len() as int) =~= b);
    lemma_split(b, 0, x1 + x2 + x3 + x4 + x5 + x6 + x7 + x8, xl);
    lemma_split(b, 0, x1 + x2 + x3 + x4 + x5 + x6 + x7, x8);
    lemma_split(b, 0, x1 + x2 + x3 + x4 + x5 + x6, x7);
    lemma_split(b, 0, x1 + x2 + x3 + x4 + x5, x6);
    lemma_split(b, 0, x1 + x2 + x3 + x4, x5);
    lemma_split(b, 0, x1 + x2 + x3, x4);
    lemma_split(b, 0, x1 + x2, x3);
    lemma_split(b, 0, x1, x2);
    lemma_take_i32_at(b, 0, q.time_limit_ms);
    lemma_take_i64_at(b, 4, q.memory_limit_mb);
    lemma_take_i32_at(b, 12, q.pids_limit);
    lemma_take_text_at(b, 16, q.rootfs);
    let p5: int = 16 + x4.len() as int;
    lemma_take_text_at(b, p5, q.tmpfs_size);
    let p6: int = p5 + x5.len() as int;
    lemma_take_text_at(b, p6, q.cgroup);
    let p7: int = p6 + x6.len() as int;
    lemma_take_text_at(b, p7, q.sandbox_id);
    let p8: int = p7 + x7.len() as int;
    lemma_take_text_at(b, p8, q.stdin_content);
    lemma_request_lists_at(b, p8 + x8.len() as int, q);
}

/// What the runner reports for one execution.
pub struct JudgerResult {
    pub verdict: Verdict,
    /// Wall time in milliseconds.
    pub time: i32,
    /// Peak memory in kilobytes.
    pub memory: i64,
    pub stdout: String,
    pub stderr: String,
    /// Each requested output file that existed, with its content.
    pub output_files: Vec<(String, Vec<u8>)>,
}

/// A response as plain values.
pub struct ResponseView {
    pub verdict: Verdict,
    pub time: i32,
    pub memory: i64,
    pub stdout: Seq<char>,
    pub stderr: Seq<char>,
    pub output_files: Seq<(Seq<char>, Seq<u8>)>,
}

pub open spec fn outputs_view(v: Seq<(String, Vec<u8>)>) -> Seq<(Seq<char>, Seq<u8>)> {
    v.map_values(|f: (String, Vec<u8>)| (f.0@, f.1@))
}

impl View for JudgerResult {
    type V = ResponseView;

    open spec fn view(&self) -> ResponseView {
        ResponseView {
            verdict: self.verdict,
            time: self.time,
            memory: self.memory,
            stdout: self.stdout@,
            stderr: self.stderr@,
            output_files: outputs_view(self.output_files@),
        }
    }
}

/// One output file read at `pos`: its name, then its content.
pub open spec fn take_output(b: Seq<u8>, pos: int) -> Option<((Seq<char>, Seq<u8>), int)> {
    match take_text(b, pos) {
        Some((name, p1)) => match take_blob(b, p1) {
            Some((content, p2)) => Some(((name, content), p2)),
            None => None,
        },
        None => None,
    }
}

pub open spec fn take_outputs(b: Seq<u8>, pos: int, n: nat) -> Option<
    (Seq<(Seq<char>, Seq<u8>)>, int),
>
    decreases n,
{
    if n == 0 {
        Some((Seq::empty(), pos))
    } else {
        match take_outputs(b, pos, (n - 1) as nat) {
            Some((xs, p)) => match take_output(b, p) {
                Some((x, q)) => Some((xs.push(x), q)),
                None => None,
            },
            None => None,
        }
    }
}

/// The response that a byte stream holds, read field by field; trailing bytes are ignored.
pub open spec fn parse_response(b: Seq<u8>) -> Option<ResponseView> {
    match take_i32(b, 0) {
        None => None,
        Some((code, p1)) => match take_i32(b, p1) {
            None => None,
            Some((time, p2)) => match take_i64(b, p2) {
                None => None,
                Some((memory, p3)) => match take_text(b, p3) {
                    None => None,
                    Some((stdout, p4)) => match take_text(b, p4) {
                        None => None,
                        Some((stderr, p5)) => match take_count(b, p5) {
                            None => None,
                            Some((n, p6)) => match take_outputs(b, p6, n) {
                                None => None,
                                Some((output_files, _p7)) => Some(
                                    ResponseView {
                                        verdict: verdict_of(code),
                                        time,
                                        memory,
                                        stdout,
                                        stderr,
                                        output_files,
                                    },
                                ),
                            },
                        },
                    },
                },
            },
        },
    }
}

fn read_outputs(r: &mut ByteReader, n: usize) -> (res: Result<Vec<(String, Vec<u8>)>, CodecError>)
    requires
        old(r).wf(),
    ensures
        final(r).wf(),
        final(r).buf@ == old(r).buf@,
        match take_outputs(old(r).buf@, old(r).pos as int, n as nat) {
            Some((v, p)) => res is Ok && outputs_view(res.unwrap()@) == v && final(r).pos == p,
            None => res is Err,
        },
{
    let ghost start = r.pos as int;
    let mut out: Vec<(String, Vec<u8>)> = Vec::new();
    let mut i: usize = 0;
    while i < n
        invariant
            r.wf(),
            r.buf@ == old(r).buf@,
            start == old(r).pos as int,
            i <= n,
            out@.len() == i,
            take_outputs(r.buf@, start, i as nat) == Some((outputs_view(out@), r.pos as int)),
        decreases n - i,
    {
        let ghost before = outputs_view(out@);
        let name = match read_string(r) {
            Ok(v) => v,
            Err(e) => {
                proof {
                    lemma_take_outputs_stops(r.buf@, start, i as nat, n as nat);
                }
                return Err(e);
            },
        };
        let content = match read_bytes(r) {
            Ok(v) => v,
            Err(e) => {
                proof {
                    lemma_take_outputs_stops(r.buf@, start, i as nat, n as nat);
                }
                return Err(e);
            },
        };
        out.push((name, content));
        i = i + 1;
        assert(outputs_view(out@) =~= before.push(outputs_view(out@).last()));
    }
    Ok(out)
}

proof fn lemma_take_outputs_stops(b: Seq<u8>, pos: int, i: nat, n: nat)
    requires
        i < n,
        take_outputs(b, pos, i) is Some,
        take_output(b, take_outputs(b, pos, i).unwrap().1) is None,
    ensures
        take_outputs(b, pos, n) is None,
    decreases n - i,
{
    if n != i + 1 {
        lemma_take_outputs_stops(b, pos, i, (n - 1) as nat);
    }
}

/// Reads the runner's answer from the bytes it wrote to its standard output.
pub fn decode_response(bytes: Vec<u8>) -> (r: Result<JudgerResult, CodecError>)
    ensures
        match r {
            Ok(res) => parse_response(bytes@) == Some(res@),
            Err(_) => parse_response(bytes@) is None,
        },
{
    let mut rd = ByteReader::new(bytes);
    let code = read_i32(&mut rd)?;
    let verdict = Verdict::from(code);
    let time = read_i32(&mut rd)?;
    let memory = read_i64(&mut rd)?;
    let stdout = read_string(&mut rd)?;
    let stderr = read_string(&mut rd)?;
    let n = read_count(&mut rd)?;
    let output_files = read_outputs(&mut rd, n)?;
    Ok(JudgerResult { verdict, time, memory, stdout, stderr, output_files })
}

/// Why one execution produced no result.
#[derive(Clone, Copy, Debug, PartialEq, Eq, Structural)]
pub enum JudgerError {
    /// The runner could not be started, or its streams failed.
    Io,
    /// The runner exited with a failure status.
    ExitedAbnormally,
    /// The runner's answer could not be read.
    Malformed(CodecError),
}

/// The result of one execution, from the runner's exit status and what it wrote.
pub fn interpret_runner_output(exit_success: bool, stdout: Vec<u8>) -> (r: Result<
    JudgerResult,
    JudgerError,
>)
    ensures
        !exit_success ==> r == Err::<JudgerResult, JudgerError>(JudgerError::ExitedAbnormally),
        exit_success ==> match r {
            Ok(res) => parse_response(stdout@) == Some(res@),
            Err(e) => parse_response(stdout@) is None && e is Malformed,
        },
{
    if !exit_success {
        return Err(JudgerError::ExitedAbnormally);
    }
    match decode_response(stdout) {
        Ok(res) => Ok(res),
        Err(e) => Err(JudgerError::Malformed(e)),
    }
}

fn fits_texts(v: &Vec<String>) -> (r: bool)
    ensures
        r == (fits_i32(v@.len() as int) && texts_fit(texts_view(v@))),
{
    if v.len() > i32::MAX as usize {
        return false;
    }
    let mut i: usize = 0;
    while i < v.len()
        invariant
            i <= v@.len(),
            forall|j: int| 0 <= j < i ==> fits_i32(#[trigger] encode_utf8(texts_view(v@)[j]).len() as int),
        decreases v@.len() - i,
    {
        assert(texts_view(v@)[i as int] == v@[i as int]@);
        if v[i].as_str().as_bytes().len() > i32::MAX as usize {
            return false;
        }
        i = i + 1;
    }
    true
}

fn fits_files(v: &Vec<FileInput>) -> (r: bool)
    ensures
        r == (fits_i32(v@.len() as int) && forall|i: int|
            0 <= i < v@.len() ==> fits_i32(encode_utf8((#[trigger] files_view(v@)[i]).0).len() as int)
                && fits_i32(files_view(v@)[i].1.len() as int)),
{
    if v.len() > i32::MAX as usize {
        return false;
    }
    let mut i: usize = 0;
    while i < v.len()
        invariant
            i <= v@.len(),
            forall|j: int|
                0 <= j < i ==> fits_i32(encode_utf8((#[trigger] files_view(v@)[j]).0).len() as int)
                    && fits_i32(files_view(v@)[j].1.len() as int),
        decreases v@.len() - i,
    {
        assert(files_view(v@)[i as int] == (v@[i as int].filename@, v@[i as int].content@, v@[i as int].mode));
        if v[i].filename.as_str().as_bytes().len() > i32::MAX as usize || v[i].content.len()
            > i32::MAX as usize {
            return false;
        }
        i = i + 1;
    }
    true
}

fn fits_text(s: &String) -> (r: bool)
    ensures
        r == fits_i32(encode_utf8(s@).len() as int),
{
    s.as_str().as_bytes().len() <= i32::MAX as usize
}

/// The bytes of `q`, or `None` when one of its lengths or counts does not fit
/// its `i32` field.
pub fn encode_checked(q: &SandboxRequest) -> (r: Option<Vec<u8>>)
    ensures
        r is Some <==> request_fits(q@),
        r is Some ==> r.unwrap()@ == request_bytes(q@),
{
    if fits_text(&q.rootfs) && fits_text(&q.tmpfs_size) && fits_text(&q.cgroup) && fits_text(
        &q.sandbox_id,
    ) && fits_text(&q.stdin_content) && fits_texts(&q.cmdline) && fits_files(&q.files)
        && fits_texts(&q.output_filenames) {
        Some(encode_request(q))
    } else {
        None
    }
}

} // verus!
