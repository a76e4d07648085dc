use theoj::codec::{
    read_bytes, read_i32, read_i64, read_string, write_bytes, write_i32, write_i64, write_str,
    ByteReader, CodecError,
};
use theoj::judger::{
    decode_request, decode_response, encode_checked, encode_request, interpret_runner_output,
    FileInput, JudgerError, SandboxRequest, Verdict,
};

fn sample_request() -> SandboxRequest {
    SandboxRequest {
        time_limit_ms: 1000,
        memory_limit_mb: 256,
        pids_limit: 16,
        rootfs: "/var/lib/judge/rootfs".to_string(),
        tmpfs_size: "256M".to_string(),
        cgroup: "/sys/fs/cgroup/judge".to_string(),
        sandbox_id: "theoj_judge_12_test_3".to_string(),
        stdin_content: "1 2\n".to_string(),
        cmdline: vec!["./main".to_string(), "--fast".to_string()],
        files: vec![FileInput { filename: "main".to_string(), content: vec![0x7f, 0x45, 0x4c, 0x46], mode: 0o775 }],
        output_filenames: vec!["out.txt".to_string()],
    }
}

fn assert_same_request(a: &SandboxRequest, b: &SandboxRequest) {
    assert_eq!(a.time_limit_ms, b.time_limit_ms);
    assert_eq!(a.memory_limit_mb, b.memory_limit_mb);
    assert_eq!(a.pids_limit, b.pids_limit);
    assert_eq!(a.rootfs, b.rootfs);
    assert_eq!(a.tmpfs_size, b.tmpfs_size);
    assert_eq!(a.cgroup, b.cgroup);
    assert_eq!(a.sandbox_id, b.sandbox_id);
    assert_eq!(a.stdin_content, b.stdin_content);
    assert_eq!(a.cmdline, b.cmdline);
    assert_eq!(a.files.len(), b.files.len());
    for (x, y) in a.files.iter().zip(b.files.iter()) {
        assert_eq!(x.filename, y.filename);
        assert_eq!(x.content, y.content);
        assert_eq!(x.mode, y.mode);
    }
    assert_eq!(a.output_filenames, b.output_filenames);
}

#[test]
fn i32_round_trip_through_buffer() {
    let mut w: Vec<u8> = Vec::new();
    write_i32(&mut w, -7);
    assert_eq!(w, vec![0xf9, 0xff, 0xff, 0xff]);
    let mut r = ByteReader::new(w);
    assert_eq!(read_i32(&mut r), Ok(-7));
}

#[test]
fn i64_is_little_endian() {
    let mut w: Vec<u8> = Vec::new();
    write_i64(&mut w, 0x0102030405060708);
    assert_eq!(w, vec![8, 7, 6, 5, 4, 3, 2, 1]);
    let mut r = ByteReader::new(w);
    assert_eq!(read_i64(&mut r), Ok(0x0102030405060708));
}

#[test]
fn string_has_length_prefix() {
    let mut w: Vec<u8> = Vec::new();
    write_str(&mut w, "hé");
    assert_eq!(w, vec![3, 0, 0, 0, b'h', 0xc3, 0xa9]);
    let mut r = ByteReader::new(w);
    assert_eq!(read_string(&mut r).unwrap(), "hé");
}

#[test]
fn bytes_round_trip() {
    let mut w: Vec<u8> = Vec::new();
    write_bytes(&mut w, &[1, 2, 3]);
    write_bytes(&mut w, &[]);
    let mut r = ByteReader::new(w);
    assert_eq!(read_bytes(&mut r).unwrap(), vec![1, 2, 3]);
    assert_eq!(read_bytes(&mut r).unwrap(), Vec::<u8>::new());
}

#[test]
fn short_read_is_an_error() {
    let mut r = ByteReader::new(vec![1, 2, 3]);
    assert_eq!(read_i32(&mut r), Err(CodecError::UnexpectedEnd));
    let mut r = ByteReader::new(vec![5, 0, 0, 0, b'a']);
    assert_eq!(read_string(&mut r), Err(CodecError::UnexpectedEnd));
}

#[test]
fn negative_length_is_an_error() {
    let mut r = ByteReader::new(vec![0xff, 0xff, 0xff, 0xff]);
    assert_eq!(read_bytes(&mut r), Err(CodecError::NegativeLength));
}

#[test]
fn invalid_utf8_is_replaced_not_refused() {
    let mut r = ByteReader::new(vec![3, 0, 0, 0, b'a', 0xff, b'b']);
    assert_eq!(read_string(&mut r).unwrap(), "a\u{fffd}b");
}

#[test]
fn request_round_trip_keeps_every_field() {
    let q = sample_request();
    let bytes = encode_request(&q);
    let back = decode_request(bytes).unwrap();
    assert_same_request(&q, &back);
}

#[test]
fn request_round_trip_with_empty_strings_and_lists() {
    let q = SandboxRequest {
        time_limit_ms: 0,
        memory_limit_mb: 0,
        pids_limit: 0,
        rootfs: String::new(),
        tmpfs_size: String::new(),
        cgroup: String::new(),
        sandbox_id: String::new(),
        stdin_content: String::new(),
        cmdline: vec![],
        files: vec![],
        output_filenames: vec![],
    };
    let bytes = encode_request(&q);
    assert_eq!(bytes.len(), 4 + 8 + 4 + 5 * 4 + 3 * 4);
    let back = decode_request(bytes).unwrap();
    assert_same_request(&q, &back);
}

#[test]
fn request_layout_starts_with_limits() {
    let q = sample_request();
    let bytes = encode_checked(&q).unwrap();
    assert_eq!(&bytes[0..4], &[0xe8, 0x03, 0, 0]);
    assert_eq!(&bytes[4..12], &[0, 1, 0, 0, 0, 0, 0, 0]);
    assert_eq!(&bytes[12..16], &[16, 0, 0, 0]);
    assert_eq!(bytes, encode_request(&q));
}

#[test]
fn truncated_request_is_refused() {
    let q = sample_request();
    let mut bytes = encode_request(&q);
    bytes.pop();
    assert!(decode_request(bytes).is_err());
}

fn response_bytes(verdict: i32) -> Vec<u8> {
    let mut w: Vec<u8> = Vec::new();
    write_i32(&mut w, verdict);
    write_i32(&mut w, 120);
    write_i64(&mut w, 2048);
    write_str(&mut w, "42\n");
    write_str(&mut w, "");
    write_i32(&mut w, 1);
    write_str(&mut w, "main");
    write_bytes(&mut w, &[9, 8, 7]);
    w
}

#[test]
fn response_is_decoded() {
    let r = decode_response(response_bytes(0)).unwrap();
    assert_eq!(r.verdict, Verdict::Success);
    assert_eq!(r.time, 120);
    assert_eq!(r.memory, 2048);
    assert_eq!(r.stdout, "42\n");
    assert_eq!(r.stderr, "");
    assert_eq!(r.output_files, vec![("main".to_string(), vec![9, 8, 7])]);
}

#[test]
fn verdict_codes() {
    assert_eq!(Verdict::from(0), Verdict::Success);
    assert_eq!(Verdict::from(1), Verdict::Tle);
    assert_eq!(Verdict::from(2), Verdict::Mle);
    assert_eq!(Verdict::from(3), Verdict::Re);
    assert_eq!(Verdict::from(4), Verdict::Uke);
    assert_eq!(Verdict::from(-1), Verdict::Uke);
    assert_eq!(decode_response(response_bytes(2)).unwrap().verdict, Verdict::Mle);
}

#[test]
fn runner_exit_status_is_checked() {
    assert!(matches!(interpret_runner_output(false, response_bytes(0)), Err(JudgerError::ExitedAbnormally)));
    assert!(matches!(interpret_runner_output(true, vec![0, 0]), Err(JudgerError::Malformed(CodecError::UnexpectedEnd))));
    assert_eq!(interpret_runner_output(true, response_bytes(1)).unwrap().verdict, Verdict::Tle);
}

#[test]
fn file_input_from_text() {
    let f = FileInput::text("main.c", "int main(){}", 0o644);
    assert_eq!(f.filename, "main.c");
    assert_eq!(f.content, b"int main(){}".to_vec());
    assert_eq!(f.mode, 0o644);
}
