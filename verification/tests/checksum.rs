use crc32::crc32;
use crc32::get_table;
use crc32::table_fn;
use rand::Rng;

fn crc32_compute_table() -> [u32; 256] {
    let mut crc32_table = [0u32; 256];

    for n in 0..256 {
        crc32_table[n as usize] = (0..8).fold(n as u32, |acc, _| {
            match acc & 1 {
                1 => 0xedb88320 ^ (acc >> 1),
                _ => acc >> 1,
            }
        });
    }

    crc32_table
}

#[test]
fn check_table_fn_against_example_code() {
    let table = crc32_compute_table();
    for i in 0..256 {
        assert_eq!(table[i], table_fn(i as u32));
    }
}

#[test]
fn simple_test() {
    let bytes: &[u8] = "The quick brown fox jumps over the lazy dog".as_bytes();
    assert_eq!(crc32(bytes), 0x414fa339_u32);
    assert_eq!(crc32(bytes), crc32fast::hash(bytes));
}

#[test]
fn check_random_inputs_against_crc32_fast() {
    let n_iter: usize = 100;
    let bufsize: usize = 4096;

    let mut buf = vec![0u8; bufsize];
    let mut rng = rand::thread_rng();

    for _ in 0..n_iter {
        rng.fill(&mut buf[..]);
        assert_eq!(crc32(&buf[..]), crc32fast::hash(&buf[..]));
    }
}

#[test]
fn check_const_eval_limit_not_reached_on_100k_data() {
    let bytes = vec![42u8; 1024 * 100];
    let cksum = crc32(&bytes);
    assert_eq!(cksum, crc32fast::hash(&bytes[..]));
}

#[test]
fn empty_input_is_zero() {
    assert_eq!(crc32(&[]), 0x00000000_u32);
}

#[test]
fn single_byte_inputs_match_reference() {
    for b in 0..=255u8 {
        let buf = [b];
        assert_eq!(crc32(&buf), crc32fast::hash(&buf));
    }
}

#[test]
fn table_matches_table_fn() {
    let table = get_table();
    assert_eq!(table.len(), 256);
    for i in 0..256 {
        assert_eq!(table[i], table_fn(i as u32));
    }
}

#[test]
fn same_input_gives_same_checksum() {
    let bytes: &[u8] = &[0xde, 0xad, 0xbe, 0xef, 0x00, 0x7f];
    assert_eq!(crc32(bytes), crc32(bytes));
}

#[test]
fn byte_order_changes_checksum() {
    assert_ne!(crc32(&[0x01, 0x02]), crc32(&[0x02, 0x01]));
}
