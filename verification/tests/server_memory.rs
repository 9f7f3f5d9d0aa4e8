use provisioner::arg_types::{MemoryParseError, ServerMemory};
use provisioner::text::NumberError;

fn normalize_mem_size_ok(input: &str, expected: u64) {
    let result = ServerMemory::from_str(input);

    assert!(result.is_ok());
    assert_eq!(result.unwrap().bytes(), expected);
}

#[test]
fn test_normalize_mem_size_ok() {
    normalize_mem_size_ok("1k", 1024);
    normalize_mem_size_ok("1K", 1024);
    normalize_mem_size_ok("10k", 10240);
    normalize_mem_size_ok("10K", 10240);
    normalize_mem_size_ok("10m", 10485760);
    normalize_mem_size_ok("10M", 10485760);
    normalize_mem_size_ok("10g", 10737418240);
    normalize_mem_size_ok("10G", 10737418240);
}

fn normalize_mem_size_err(input: &str) {
    let result = ServerMemory::from_str(input);

    assert!(result.is_err());
}

#[test]
fn test_normalize_mem_size_err() {
    normalize_mem_size_err("");
    normalize_mem_size_err("10");
    normalize_mem_size_err("abc");
    normalize_mem_size_err("10kb");
    normalize_mem_size_err("10KB");
    normalize_mem_size_err("10gb");
    normalize_mem_size_err("10GB");
}

#[test]
fn memory_errors_name_the_fault() {
    assert_eq!(ServerMemory::from_str("").unwrap_err(), MemoryParseError::EmptyString);
    assert_eq!(ServerMemory::from_str("10").unwrap_err(), MemoryParseError::InvalidSize('0'));
    assert_eq!(ServerMemory::from_str("10X").unwrap_err(), MemoryParseError::InvalidSize('x'));
    assert_eq!(ServerMemory::from_str("10é").unwrap_err(), MemoryParseError::InvalidSize('é'));
    assert_eq!(
        ServerMemory::from_str("k").unwrap_err(),
        MemoryParseError::ParseIntError(NumberError::Empty)
    );
    assert_eq!(
        ServerMemory::from_str("1x0k").unwrap_err(),
        MemoryParseError::ParseIntError(NumberError::InvalidDigit)
    );
    assert_eq!(
        ServerMemory::from_str("-1k").unwrap_err(),
        MemoryParseError::ParseIntError(NumberError::InvalidDigit)
    );
    assert_eq!(
        ServerMemory::from_str("+k").unwrap_err(),
        MemoryParseError::ParseIntError(NumberError::InvalidDigit)
    );
    assert_eq!(
        ServerMemory::from_str("18446744073709551616k").unwrap_err(),
        MemoryParseError::ParseIntError(NumberError::PosOverflow)
    );
}

#[test]
fn memory_product_is_checked() {
    // 2^54 kibibytes are 2^64 bytes, one more than a u64 holds.
    assert_eq!(
        ServerMemory::from_str("18014398509481984k").unwrap_err(),
        MemoryParseError::ParseIntError(NumberError::PosOverflow)
    );
    assert_eq!(
        ServerMemory::from_str("18014398509481983k").unwrap().bytes(),
        18446744073709550592
    );
}

#[test]
fn memory_accepts_plus_and_leading_zeros() {
    assert_eq!(ServerMemory::from_str("+10k").unwrap().bytes(), 10240);
    assert_eq!(ServerMemory::from_str("0010m").unwrap().bytes(), 10485760);
    assert_eq!(ServerMemory::from_str("0g").unwrap().bytes(), 0);
}

#[test]
fn memory_keeps_its_text() {
    let memory = ServerMemory::from_str("512M").unwrap();
    assert_eq!(memory.to_string(), "512M");
    assert_eq!(memory.clone().to_string(), "512M");
    assert_eq!(memory.clone().bytes(), 512 * 1024 * 1024);
}

#[test]
fn memory_compares_by_bytes() {
    let one_gib = ServerMemory::from_str("1G").unwrap();
    let also_one_gib = ServerMemory::from_str("1024m").unwrap();
    let two_gib = ServerMemory::from_str("2g").unwrap();
    assert!(one_gib == also_one_gib);
    assert!(one_gib != two_gib);
    assert!(one_gib < two_gib);
    assert!(two_gib > also_one_gib);
    assert!(one_gib >= also_one_gib);
    assert!(one_gib <= also_one_gib);
}

#[test]
fn gibibytes_are_written_with_a_capital() {
    let memory = ServerMemory::gibibytes(12);
    assert_eq!(memory.to_string(), "12G");
    assert_eq!(memory.bytes(), 12884901888);
    assert!(memory == ServerMemory::from_str("12G").unwrap());
    assert_eq!(ServerMemory::gibibytes(0).to_string(), "0G");
    assert_eq!(ServerMemory::gibibytes(255).bytes(), 255 * 1073741824);
}

#[test]
fn memory_error_messages() {
    assert_eq!(MemoryParseError::EmptyString.to_string(), "string cannot be empty");
    assert_eq!(MemoryParseError::InvalidSize('b').to_string(), "unknown size suffix: b");
    assert_eq!(
        MemoryParseError::ParseIntError(NumberError::InvalidDigit).to_string(),
        "invalid digit found in string"
    );
    assert_eq!(
        MemoryParseError::ParseIntError(NumberError::Empty).to_string(),
        "cannot parse integer from empty string"
    );
    assert_eq!(
        MemoryParseError::ParseIntError(NumberError::PosOverflow).to_string(),
        "number too large to fit in target type"
    );
    assert_eq!(NumberError::NegOverflow.to_string(), "number too small to fit in target type");
}
