use sdmmc::card::{
    judge_power_up, modes_of_device, parse_csd, parse_ext_csd, read_field, Card, CardType, ExtCsd,
    Family, Modes, PowerUp,
};
use sdmmc::classify::{classify, classify_card_status, classify_fault, classify_interrupt};
use sdmmc::command::{
    build_command_script, decode_response, encode_command, Command, Response, ResponseType,
};
use sdmmc::dma::{build_descriptor_chain, TransferDescriptor};
use sdmmc::dump::dump_messages;
use sdmmc::emmc::judge_width;
use sdmmc::mode::switch_took;
use sdmmc::err::SdError;
use sdmmc::hex::{push_lower_hex, push_upper_hex};
use sdmmc::regs::{Bus, BusOp, Kernel, Reg, Traced};
use sdmmc::script::{check_script, run, run_plain, Machine, Step};
use sdmmc::session::{place, place_of, HostCaps, Outcome, Phase, Request, Session, SessionState};
use sdmmc::signal::{
    build_clock_script, build_power_script, build_voltage_script, clock_for, divider_for,
    encode_control1, encode_control2, encode_divider, judge_tuning, mode_needs_low_voltage,
    mode_needs_tuning, BusWidth, Sample, TimingMode, Tuning, Voltage,
};
use sdmmc::transfer::{build_dma_script, build_pio_script, decode_data, mode_for, Direction};
use sdmmc::tuning::build_tuning_script;
use sdmmc::words::{pack_words, unpack_words};
use sdmmc::block::check_chain;
use sdmmc::BLOCK_SIZE;

/// A bus that answers every read with the same value.
struct Fixed {
    value: u32,
    reads: usize,
    writes: Vec<(Reg, u32)>,
}

impl Fixed {
    fn new(value: u32) -> Fixed {
        Fixed { value, reads: 0, writes: Vec::new() }
    }
}

impl Bus for Fixed {
    fn read(&mut self, _reg: Reg) -> u32 {
        self.reads += 1;
        self.value
    }

    fn write(&mut self, reg: Reg, value: u32) {
        self.writes.push((reg, value));
    }
}

struct NoDelay;

impl Kernel for NoDelay {
    fn sleep(_us: u64) {}
}

fn all_modes() -> Modes {
    Modes { high_speed: true, sdr50: true, sdr104: true, hs200: true, hs400: true }
}

fn caps() -> HostCaps {
    HostCaps { modes: all_modes(), eight_bit: true, low_voltage: true }
}

fn r(kind: ResponseType, raw: u128) -> Outcome {
    Outcome::Response(Response { kind, raw })
}

fn poll(mask: u32, want: u32, budget: u32, on_timeout: SdError, recover: bool) -> Step {
    Step::Poll { reg: Reg::IntStatus, mask, want, fault: 0xFFFF_8000, budget, interval_us: 3, on_timeout, recover }
}

#[test]
fn block_size_is_512() {
    assert_eq!(BLOCK_SIZE, 512);
}

#[test]
fn message_of_each_error() {
    let all = [
        (SdError::Timeout, "Command timeout error"),
        (SdError::Crc, "Command CRC error"),
        (SdError::EndBit, "Command end bit error"),
        (SdError::Index, "Command index error"),
        (SdError::DataTimeout, "Data timeout error"),
        (SdError::DataCrc, "Data CRC error"),
        (SdError::DataEndBit, "Data end bit error"),
        (SdError::BusPower, "Bus power error"),
        (SdError::Acmd12Error, "ACMD12 error"),
        (SdError::AdmaError, "ADMA error"),
        (SdError::InvalidResponse, "Invalid response"),
        (SdError::NoCard, "No card detected"),
        (SdError::UnsupportedCard, "Unsupported card"),
        (SdError::IoError, "I/O error"),
        (SdError::CommandError, "Command error"),
        (SdError::TransferError, "Transfer error"),
        (SdError::InvalidResponseType, "Invalid response type"),
        (SdError::CurrentLimit, "Current limit error"),
        (SdError::DataError, "Data error"),
        (SdError::TuningFailed, "Tuning failed"),
        (SdError::VoltageSwitchFailed, "Voltage switch failed"),
        (SdError::BadMessage, "Bad message"),
        (SdError::InvalidArgument, "Invalid argument"),
        (SdError::BufferOverflow, "Buffer overflow"),
        (SdError::MemoryError, "Memory error"),
        (SdError::BusWidth, "Bus width error"),
    ];
    for (e, text) in all {
        assert_eq!(e.message(), text);
    }
}

#[test]
fn message_of_card_error_shows_status_in_hex() {
    let e = SdError::CardError(0x80000, "out of range");
    assert_eq!(e.message(), "Card error: 0x80000 (out of range)");
    assert_eq!(SdError::CardError(0, "x").message(), "Card error: 0x0 (x)");
    assert_eq!(SdError::CardError(0xDEAD_BEEF, "").message(), "Card error: 0xDEADBEEF ()");
}

#[test]
fn hex_digits_upper_and_lower() {
    let mut s = String::new();
    push_upper_hex(&mut s, 0xAB0F);
    assert_eq!(s, "AB0F");
    let mut s = String::from("x");
    push_upper_hex(&mut s, 0);
    assert_eq!(s, "x0");
    let mut s = String::new();
    push_lower_hex(&mut s, 0xfe2e, 8);
    assert_eq!(s, "0000fe2e");
    let mut s = String::new();
    push_lower_hex(&mut s, 0x1_2345_6789, 8);
    assert_eq!(s, "123456789");
    let mut s = String::new();
    push_lower_hex(&mut s, 0, 0);
    assert_eq!(s, "0");
    let mut s = String::new();
    push_lower_hex(&mut s, u64::MAX, 3);
    assert_eq!(s, "ffffffffffffffff");
}

#[test]
fn dump_shows_four_words_to_a_row() {
    let words = vec![0x11, 0x2222, 0xdeadbeef, 4, 5];
    let list = dump_messages(0x1000, 20, &words);
    assert_eq!(
        list,
        vec![
            "Memory dump from 0x00001000 to 0x00001013:",
            "\n0x00001000:",
            " 0x00000011",
            " 0x00002222",
            " 0xdeadbeef",
            " 0x00000004",
            "\n0x00001010:",
            " 0x00000005",
            "",
        ]
    );
    let list = dump_messages(0x20, 3, &Vec::new());
    assert_eq!(list, vec!["Memory dump from 0x00000020 to 0x00000022:", ""]);
}

#[test]
fn interrupt_faults_are_named_by_rank() {
    assert_eq!(classify_interrupt(0), None);
    assert_eq!(classify_interrupt(0x0000_0003), None);
    assert_eq!(classify_interrupt(0x0001_8000), Some(SdError::Timeout));
    assert_eq!(classify_interrupt(0x0002_0000), Some(SdError::Crc));
    assert_eq!(classify_interrupt(0x0004_0000), Some(SdError::EndBit));
    assert_eq!(classify_interrupt(0x0008_0000), Some(SdError::Index));
    assert_eq!(classify_interrupt(0x0010_0000), Some(SdError::DataTimeout));
    assert_eq!(classify_interrupt(0x0020_0000), Some(SdError::DataCrc));
    assert_eq!(classify_interrupt(0x0040_0000), Some(SdError::DataEndBit));
    assert_eq!(classify_interrupt(0x0080_0000), Some(SdError::BusPower));
    assert_eq!(classify_interrupt(0x0100_0000), Some(SdError::Acmd12Error));
    assert_eq!(classify_interrupt(0x0200_0000), Some(SdError::AdmaError));
    assert_eq!(classify_interrupt(0x0400_0000), Some(SdError::TuningFailed));
    assert_eq!(classify_interrupt(0x1000_0000), Some(SdError::TransferError));
    assert_eq!(classify_interrupt(0x0000_8000), Some(SdError::TransferError));
    // several at once: power first, then the lines, then the transfer layer
    assert_eq!(classify_interrupt(0xFFFF_8000), Some(SdError::BusPower));
    assert_eq!(classify_interrupt(0xFF7F_8000), Some(SdError::Crc));
    assert_eq!(classify_interrupt(0x0201_0000), Some(SdError::Timeout));
    assert_eq!(classify_interrupt(0x0230_0000), Some(SdError::DataCrc));
    assert_eq!(classify_interrupt(0x0300_0000), Some(SdError::Acmd12Error));
    assert_eq!(classify_fault(0x0002_0000), SdError::Crc);
    assert_eq!(classify_fault(0x0000_0001), SdError::IoError);
}

#[test]
fn card_faults_echo_the_status() {
    assert_eq!(classify_card_status(0x0000_0900), None);
    assert_eq!(
        classify_card_status(0x0008_0000),
        Some(SdError::CardError(0x0008_0000, "out of range"))
    );
    assert_eq!(
        classify_card_status(0x4000_0900),
        Some(SdError::CardError(0x4000_0900, "address error"))
    );
    assert_eq!(
        classify_card_status(0x8040_0000),
        Some(SdError::CardError(0x8040_0000, "illegal command"))
    );
    assert_eq!(
        classify_card_status(0x8000_0000),
        Some(SdError::CardError(0x8000_0000, "general error"))
    );
    let texts = [
        (30, "address error"),
        (29, "block length error"),
        (28, "erase sequence error"),
        (27, "erase parameter error"),
        (26, "write protect violation"),
        (24, "lock or unlock failed"),
        (23, "command CRC error"),
        (22, "illegal command"),
        (21, "card ECC failed"),
        (20, "card controller error"),
    ];
    for (bit, text) in texts {
        assert_eq!(classify_card_status(1 << bit), Some(SdError::CardError(1 << bit, text)));
    }
    // the controller's fault outranks the card's
    assert_eq!(classify(0x0002_0000, 0x0008_0000), Some(SdError::Crc));
    assert_eq!(classify(0, 0x0008_0000), Some(SdError::CardError(0x0008_0000, "out of range")));
    assert_eq!(classify(1, 0x900), None);
}

#[test]
fn words_are_little_endian() {
    let bytes = vec![0x78, 0x56, 0x34, 0x12, 0xFF, 0, 0, 0x80, 9];
    let words = pack_words(&bytes);
    assert_eq!(words, vec![0x1234_5678, 0x8000_00FF]);
    assert_eq!(unpack_words(&words), bytes[..8].to_vec());
    assert_eq!(pack_words(&Vec::new()), Vec::<u32>::new());
    let all: Vec<u8> = (0..=255u8).chain(0..=255u8).collect();
    assert_eq!(unpack_words(&pack_words(&all)), all);
}

#[test]
fn chain_covers_the_buffer_in_legal_pieces() {
    let chain = build_descriptor_chain(0x1000, 512).unwrap();
    assert_eq!(
        chain,
        vec![TransferDescriptor { address: 0x1000, length: 512, valid: true, end: true, interrupt: false }]
    );
    // as much as a descriptor may hold, piece after piece
    let chain = build_descriptor_chain(0x10_0000, 3 * 65536 + 512).unwrap();
    let lengths: Vec<u32> = chain.iter().map(|d| d.length).collect();
    assert_eq!(lengths, vec![65536, 65536, 65536, 512]);
    let ends: Vec<bool> = chain.iter().map(|d| d.end).collect();
    assert_eq!(ends, vec![false, false, false, true]);
    assert_eq!(chain[3].address, 0x10_0000 + 3 * 65536);
    // cut at the boundary
    let chain = build_descriptor_chain(0x0800_0000 - 512, 1024).unwrap();
    assert_eq!(chain.len(), 2);
    assert_eq!((chain[0].address, chain[0].length), (0x0800_0000 - 512, 512));
    assert_eq!((chain[1].address, chain[1].length), (0x0800_0000, 512));
    // an unaligned start shifts every cut
    let chain = build_descriptor_chain(0x0FFC, 65536 + 512).unwrap();
    let lengths: Vec<u32> = chain.iter().map(|d| d.length).collect();
    assert_eq!(lengths, vec![65536, 512]);
    let total: u64 = chain.iter().map(|d| d.length as u64).sum();
    assert_eq!(total, 65536 + 512);
}

#[test]
fn chain_refuses_what_it_cannot_describe() {
    assert_eq!(build_descriptor_chain(0x1000, 0), Err(SdError::InvalidArgument));
    assert_eq!(build_descriptor_chain(0x1000, 513), Err(SdError::InvalidArgument));
    assert_eq!(build_descriptor_chain(0x1002, 513), Err(SdError::InvalidArgument));
    assert_eq!(build_descriptor_chain(0x1002, 512), Err(SdError::AdmaError));
    assert_eq!(build_descriptor_chain(u64::MAX - 3, 512), Err(SdError::MemoryError));
    assert!(build_descriptor_chain(u64::MAX - 515, 512).is_ok());
}

#[test]
fn chain_check_accepts_built_chains_only() {
    let chain = build_descriptor_chain(0x0800_0000 - 512, 2048).unwrap();
    assert!(check_chain(&chain, 2048));
    assert!(!check_chain(&chain, 1024));
    assert!(!check_chain(&Vec::new(), 0));
    let mut gap = chain.clone();
    gap[1].address += 4;
    assert!(!check_chain(&gap, 2048));
    let mut open = chain.clone();
    open[1].end = false;
    assert!(!check_chain(&open, 2048));
    let crossing = vec![TransferDescriptor {
        address: 0x0800_0000 - 512,
        length: 1024,
        valid: true,
        end: true,
        interrupt: false,
    }];
    assert!(!check_chain(&crossing, 1024));
    let long = vec![TransferDescriptor {
        address: 0,
        length: 65536 + 512,
        valid: true,
        end: true,
        interrupt: false,
    }];
    assert!(!check_chain(&long, 65536 + 512));
}

#[test]
fn divider_is_the_smallest_that_is_slow_enough() {
    assert_eq!(divider_for(200_000_000, 400_000), Some(250));
    assert_eq!(divider_for(200_000_000, 200_000_000), Some(0));
    assert_eq!(divider_for(200_000_000, 208_000_000), Some(0));
    assert_eq!(divider_for(200_000_000, 199_999_999), Some(1));
    assert_eq!(divider_for(200_000_000, 100_000_000), Some(1));
    assert_eq!(divider_for(200_000_000, 50_000_000), Some(2));
    assert_eq!(divider_for(200_000_000, 25_000_000), Some(4));
    assert_eq!(divider_for(99, 49), Some(1));
    assert_eq!(divider_for(100, 49), Some(2));
    assert_eq!(divider_for(200_000_000, 1), Some(1023));
    assert_eq!(divider_for(0, 400_000), None);
    assert_eq!(divider_for(200_000_000, 0), None);
    assert_eq!(encode_divider(250), 0xFA00);
    assert_eq!(encode_divider(0x3FF), 0xFFC0);
}

#[test]
fn host_words_for_width_mode_and_voltage() {
    assert_eq!(encode_control1(BusWidth::One, TimingMode::Legacy, false), 0x00);
    assert_eq!(encode_control1(BusWidth::Four, TimingMode::HighSpeed, false), 0x06);
    assert_eq!(encode_control1(BusWidth::Eight, TimingMode::Hs200, true), 0x34);
    assert_eq!(encode_control2(TimingMode::Legacy, Voltage::V330), 0x0);
    assert_eq!(encode_control2(TimingMode::Sdr104, Voltage::V180), 0xB);
    assert_eq!(encode_control2(TimingMode::Hs400, Voltage::V180), 0xF);
    assert_eq!(clock_for(TimingMode::Legacy), 25_000_000);
    assert_eq!(clock_for(TimingMode::Sdr104), 208_000_000);
    assert!(mode_needs_tuning(TimingMode::Hs200) && !mode_needs_tuning(TimingMode::Sdr50));
    assert!(mode_needs_low_voltage(TimingMode::Sdr50) && !mode_needs_low_voltage(TimingMode::HighSpeed));
    assert_eq!(mode_for(Direction::Read, 1, false), 0x10);
    assert_eq!(mode_for(Direction::Read, 2, true), 0x37);
    assert_eq!(mode_for(Direction::Write, 9, false), 0x26);
}

#[test]
fn command_word_holds_index_flags_and_mode() {
    assert_eq!(encode_command(&Command::new(0, 0, ResponseType::NoResponse), 0), 0);
    assert_eq!(encode_command(&Command::new(2, 0, ResponseType::R2), 0), 0x0209_0000);
    assert_eq!(encode_command(&Command::new(41, 0, ResponseType::R3), 0), 0x2902_0000);
    assert_eq!(encode_command(&Command::new(7, 0, ResponseType::R1b), 0), 0x071B_0000);
    assert_eq!(encode_command(&Command::with_data(18, 0, ResponseType::R1), 0x36), 0x123A_0036);
    assert!(Command::new(63, 0, ResponseType::R1).is_valid());
    assert!(!Command::new(64, 0, ResponseType::R1).is_valid());
}

#[test]
fn command_script_checks_clears_issues_and_reads() {
    let script = build_command_script(&Command::new(13, 5, ResponseType::R1), 0);
    assert_eq!(script.len(), 7);
    assert!(matches!(script[0], Step::Poll { reg: Reg::PresentState, mask: 1, want: 0, budget: 1, recover: false, .. }));
    assert_eq!(script[1], Step::Write { reg: Reg::IntStatus, value: 0xFFFF_FFFF });
    assert_eq!(script[2], Step::Write { reg: Reg::Argument, value: 5 });
    assert_eq!(script[3], Step::Write { reg: Reg::Command, value: 0x0D1A_0000 });
    assert!(matches!(script[4], Step::Poll { reg: Reg::IntStatus, mask: 1, want: 1, on_timeout: SdError::Timeout, recover: true, .. }));
    assert_eq!(script[5], Step::Write { reg: Reg::IntStatus, value: 1 });
    assert_eq!(script[6], Step::Read { reg: Reg::Response0, count: 1 });
    // a busy response adds the wait on the data line and needs the line idle
    let script = build_command_script(&Command::new(7, 0, ResponseType::R1b), 0);
    assert_eq!(script.len(), 8);
    assert!(matches!(script[0], Step::Poll { mask: 3, .. }));
    assert!(matches!(script[7], Step::Poll { reg: Reg::PresentState, on_timeout: SdError::DataTimeout, .. }));
    // a long response reads four registers, none reads none
    assert_eq!(build_command_script(&Command::new(2, 0, ResponseType::R2), 0).len(), 10);
    assert_eq!(build_command_script(&Command::new(0, 0, ResponseType::NoResponse), 0).len(), 6);
    // an application command announces itself to the card at the address
    let script = build_command_script(&Command::app(41, 9, ResponseType::R3), 0x1234);
    assert_eq!(script.len(), 13);
    assert_eq!(script[2], Step::Write { reg: Reg::Argument, value: 0x1234_0000 });
    assert_eq!(script[3], Step::Write { reg: Reg::Command, value: 0x371A_0000 });
    assert!(matches!(script[7], Step::Poll { reg: Reg::Response0, mask: 0x20, want: 0x20, on_timeout: SdError::CommandError, .. }));
    assert_eq!(script[8], Step::Write { reg: Reg::Argument, value: 9 });
}

#[test]
fn responses_are_made_of_the_words_read() {
    let cmd = Command::new(13, 0, ResponseType::R1);
    let resp = decode_response(&cmd, &vec![0x900]).unwrap();
    assert_eq!(resp, Response { kind: ResponseType::R1, raw: 0x900 });
    assert_eq!(resp.card_status(), Ok(0x900));
    assert_eq!(resp.ocr(), Err(SdError::InvalidResponseType));
    assert_eq!(resp.rca(), Err(SdError::InvalidResponseType));
    assert_eq!(resp.echo(), Err(SdError::InvalidResponseType));
    assert_eq!(resp.long(), Err(SdError::InvalidResponseType));
    assert_eq!(decode_response(&cmd, &vec![]), Err(SdError::InvalidResponse));
    assert_eq!(decode_response(&cmd, &vec![1, 2]), Err(SdError::InvalidResponse));
    assert_eq!(
        decode_response(&cmd, &vec![0x0008_0900]),
        Err(SdError::CardError(0x0008_0900, "out of range"))
    );
    let r3 = decode_response(&Command::new(1, 0, ResponseType::R3), &vec![0xC0FF_8000]).unwrap();
    assert_eq!(r3.ocr(), Ok(0xC0FF_8000));
    assert_eq!(r3.card_status(), Err(SdError::InvalidResponseType));
    let r6 = decode_response(&Command::new(3, 0, ResponseType::R6), &vec![0xAAAA_0500]).unwrap();
    assert_eq!(r6.rca(), Ok(0xAAAA));
    let r7 = decode_response(&Command::new(8, 0, ResponseType::R7), &vec![0xFFFF_F1AA]).unwrap();
    assert_eq!(r7.echo(), Ok(0x1AA));
    let r2 = decode_response(&Command::new(2, 0, ResponseType::R2), &vec![0x11, 0x22, 0x33, 0x44]).unwrap();
    assert_eq!(r2.long(), Ok(0x0000_4400_0000_3300_0000_2200_0000_1100));
    let none = decode_response(&Command::new(0, 0, ResponseType::NoResponse), &vec![]).unwrap();
    assert_eq!(none.raw, 0);
    // the answer to the announcement comes first and is checked too
    let app = Command::app(41, 0, ResponseType::R3);
    assert_eq!(decode_response(&app, &vec![0x120, 0x80FF_8000]).unwrap().ocr(), Ok(0x80FF_8000));
    assert_eq!(decode_response(&app, &vec![0x80FF_8000]), Err(SdError::InvalidResponse));
    assert_eq!(
        decode_response(&app, &vec![0x0040_0120, 0]),
        Err(SdError::CardError(0x0040_0120, "illegal command"))
    );
}

#[test]
fn data_words_follow_the_card_status() {
    assert_eq!(decode_data(Ok(vec![0x900, 1, 2, 3]), 3), Ok(vec![1, 2, 3]));
    assert_eq!(decode_data(Ok(vec![0x900]), 0), Ok(vec![]));
    assert_eq!(decode_data(Ok(vec![0x900, 1]), 2), Err(SdError::DataError));
    assert_eq!(decode_data(Ok(vec![]), 0), Err(SdError::DataError));
    assert_eq!(decode_data(Ok(vec![0x900, 1, 2]), 1), Err(SdError::BufferOverflow));
    assert_eq!(
        decode_data(Ok(vec![0x0008_0000, 1]), 1),
        Err(SdError::CardError(0x0008_0000, "out of range"))
    );
    assert_eq!(decode_data(Err(SdError::DataCrc), 1), Err(SdError::DataCrc));
}

#[test]
fn data_scripts_move_block_after_block() {
    let cmd = Command::with_data(18, 64, ResponseType::R1);
    let script = build_pio_script(&cmd, Direction::Read, 2, 128);
    assert_eq!(script.len(), 10 + 2 * 3 + 2);
    assert_eq!(script[2], Step::Write { reg: Reg::BlockSize, value: 512 });
    assert_eq!(script[3], Step::Write { reg: Reg::BlockCount, value: 2 });
    assert_eq!(script[4], Step::Write { reg: Reg::TimeoutControl, value: 0x0E });
    assert_eq!(script[5], Step::Write { reg: Reg::Argument, value: 64 });
    assert_eq!(script[6], Step::Write { reg: Reg::Command, value: 0x123A_0036 });
    assert!(matches!(script[10], Step::Poll { mask: 0x20, on_timeout: SdError::DataTimeout, .. }));
    assert_eq!(script[12], Step::Read { reg: Reg::BufferData, count: 128 });
    assert_eq!(script[15], Step::Read { reg: Reg::BufferData, count: 128 });
    assert!(matches!(script[16], Step::Poll { mask: 2, .. }));
    let script = build_pio_script(&Command::with_data(25, 0, ResponseType::R1), Direction::Write, 3, 128);
    assert_eq!(script[12], Step::WriteData { reg: Reg::BufferData, start: 0, count: 128 });
    assert_eq!(script[15], Step::WriteData { reg: Reg::BufferData, start: 128, count: 128 });
    assert_eq!(script[18], Step::WriteData { reg: Reg::BufferData, start: 256, count: 128 });
    assert!(check_script(&script, 384));
    assert!(!check_script(&script, 383));
    let script = build_dma_script(&cmd, Direction::Read, 2, 0x1_0000_2000, 0x16);
    assert_eq!(script[2], Step::Write { reg: Reg::AdmaAddressLow, value: 0x2000 });
    assert_eq!(script[3], Step::Write { reg: Reg::AdmaAddressHigh, value: 1 });
    assert_eq!(script[4], Step::Write { reg: Reg::HostControl1, value: 0x16 });
    assert_eq!(script[9], Step::Write { reg: Reg::Command, value: 0x123A_0037 });
    assert_eq!(script.len(), 15);
    assert_eq!(build_tuning_script(21, 128).len(), 9);
    assert_eq!(build_clock_script(4).len(), 5);
    assert_eq!(build_power_script().len(), 8);
    assert_eq!(build_voltage_script(Voltage::V180, TimingMode::Legacy, 4).len(), 7);
}

#[test]
fn machine_steps_one_operation_at_a_time() {
    let script = vec![
        Step::Write { reg: Reg::Argument, value: 7 },
        Step::Read { reg: Reg::Response0, count: 2 },
        Step::Delay { us: 50 },
        Step::WriteData { reg: Reg::BufferData, start: 1, count: 2 },
    ];
    let mut m = Machine::new(script, vec![10, 20, 30]).unwrap();
    assert!(!m.finished());
    assert_eq!(m.step(99), BusOp::Write { reg: Reg::Argument, value: 7 });
    assert_eq!(m.step(99), BusOp::Read { reg: Reg::Response0 });
    assert_eq!(m.step(11), BusOp::Read { reg: Reg::Response0 });
    assert_eq!(m.step(22), BusOp::Delay { us: 50 });
    assert_eq!(m.step(99), BusOp::Write { reg: Reg::BufferData, value: 20 });
    assert_eq!(m.step(99), BusOp::Write { reg: Reg::BufferData, value: 30 });
    assert!(!m.finished());
    assert_eq!(m.step(99), BusOp::Done);
    assert!(m.finished());
    assert_eq!(m.step(99), BusOp::Done);
    assert_eq!(m.into_result(), Ok(vec![11, 22]));
}

#[test]
fn machine_polls_with_a_pause_between_reads() {
    let script = vec![poll(1, 1, 3, SdError::Timeout, false)];
    let mut m = Machine::new(script.clone(), Vec::new()).unwrap();
    assert_eq!(m.step(0), BusOp::Read { reg: Reg::IntStatus });
    assert_eq!(m.step(0), BusOp::Delay { us: 3 });
    assert_eq!(m.step(0), BusOp::Read { reg: Reg::IntStatus });
    assert_eq!(m.step(0), BusOp::Delay { us: 3 });
    assert_eq!(m.step(0), BusOp::Read { reg: Reg::IntStatus });
    assert_eq!(m.step(0), BusOp::Done);
    assert_eq!(m.into_result(), Err(SdError::Timeout));
    // met at the second read
    let mut m = Machine::new(script.clone(), Vec::new()).unwrap();
    assert_eq!(m.step(0), BusOp::Read { reg: Reg::IntStatus });
    assert_eq!(m.step(0), BusOp::Delay { us: 3 });
    assert_eq!(m.step(0), BusOp::Read { reg: Reg::IntStatus });
    assert_eq!(m.step(1), BusOp::Done);
    assert_eq!(m.into_result(), Ok(vec![]));
    // a fault ends the wait at once, with the error classified from the value
    let mut m = Machine::new(script, Vec::new()).unwrap();
    assert_eq!(m.step(0), BusOp::Read { reg: Reg::IntStatus });
    assert_eq!(m.step(0x0020_8000), BusOp::Done);
    assert_eq!(m.into_result(), Err(SdError::DataCrc));
}

#[test]
fn machine_recovers_after_a_failed_wait() {
    let script = vec![
        poll(1, 1, 1, SdError::DataTimeout, true),
        Step::Write { reg: Reg::Argument, value: 1 },
    ];
    let mut m = Machine::new(script, Vec::new()).unwrap();
    assert_eq!(m.step(0), BusOp::Read { reg: Reg::IntStatus });
    assert_eq!(m.step(0), BusOp::Write { reg: Reg::SoftwareReset, value: 0x06 });
    assert_eq!(m.step(0), BusOp::Write { reg: Reg::IntStatus, value: 0xFFFF_FFFF });
    assert!(m.finished());
    assert_eq!(m.step(0), BusOp::Done);
    assert_eq!(m.into_result(), Err(SdError::DataTimeout));
}

#[test]
fn machine_refuses_a_script_that_is_not_well_formed() {
    let no_read = vec![Step::Read { reg: Reg::Response0, count: 0 }];
    assert!(matches!(Machine::new(no_read.clone(), Vec::new()), Err(SdError::InvalidArgument)));
    let no_poll = vec![poll(1, 1, 0, SdError::Timeout, false)];
    assert!(!check_script(&no_poll, 0));
    let beyond = vec![Step::WriteData { reg: Reg::BufferData, start: 2, count: 2 }];
    assert!(!check_script(&beyond, 3));
    assert!(check_script(&beyond, 4));
    let empty = vec![Step::WriteData { reg: Reg::BufferData, start: 0, count: 0 }];
    assert!(!check_script(&empty, 4));
    let mut bus = Traced::new(Fixed::new(0));
    assert_eq!(run::<Fixed, NoDelay>(&mut bus, no_read, Vec::new()), Err(SdError::InvalidArgument));
    assert_eq!(bus.bus().reads + bus.bus().writes.len(), 0);
    assert!(check_script(&Vec::new(), 0));
    assert_eq!(run::<Fixed, NoDelay>(&mut bus, Vec::new(), Vec::new()), Ok(vec![]));
}

#[test]
fn starved_poll_gives_its_own_error() {
    let script = vec![
        Step::Write { reg: Reg::Argument, value: 7 },
        poll(1, 1, 5, SdError::Timeout, true),
    ];
    let mut bus = Traced::new(Fixed::new(0));
    assert_eq!(run::<Fixed, NoDelay>(&mut bus, script.clone(), Vec::new()), Err(SdError::Timeout));
    assert_eq!(bus.bus().reads, 5);
    assert_eq!(
        bus.bus().writes,
        vec![(Reg::Argument, 7), (Reg::SoftwareReset, 0x06), (Reg::IntStatus, 0xFFFF_FFFF)]
    );
    let mut bus = Traced::new(Fixed::new(1));
    assert_eq!(run_plain::<Fixed, NoDelay>(&mut bus, script), Ok(()));
    assert_eq!(bus.bus().reads, 1);
}

#[test]
fn bus_that_reads_zero_times_every_command_out() {
    let mut bus = Traced::new(Fixed::new(0));
    let cmd = Command::new(13, 0, ResponseType::R1);
    let r = sdmmc::command::execute_on::<Fixed, NoDelay>(&mut bus, &cmd, 0);
    assert_eq!(r, Err(SdError::Timeout));
    // one look at the lines, then the whole budget of the wait
    assert_eq!(bus.bus().reads, 1 + 10_000);
}

#[test]
fn power_that_does_not_stay_on_is_a_current_limit() {
    let mut bus = Traced::new(Fixed::new(0));
    assert_eq!(run_plain::<Fixed, NoDelay>(&mut bus, build_power_script()), Err(SdError::CurrentLimit));
    assert_eq!(
        bus.bus().writes,
        vec![(Reg::SoftwareReset, 0x01), (Reg::PowerControl, 0x0F)]
    );
}

#[test]
fn clock_that_does_not_settle_times_out() {
    let mut bus = Traced::new(Fixed::new(0));
    assert_eq!(run_plain::<Fixed, NoDelay>(&mut bus, build_clock_script(2)), Err(SdError::Timeout));
    assert_eq!(bus.bus().reads, 2_000);
    assert_eq!(bus.bus().writes, vec![(Reg::ClockControl, 0), (Reg::ClockControl, 0x0201)]);
}

#[test]
fn tuning_verdicts() {
    assert_eq!(judge_tuning(&Sample::Control(0x0080), 1), Tuning::Tuned);
    assert_eq!(judge_tuning(&Sample::Control(0x0000), 1), Tuning::Failed);
    assert_eq!(judge_tuning(&Sample::Control(0x0040), 1), Tuning::Again);
    assert_eq!(judge_tuning(&Sample::Control(0x00C0), 39), Tuning::Again);
    assert_eq!(judge_tuning(&Sample::Control(0x00C0), 40), Tuning::Failed);
    assert_eq!(judge_tuning(&Sample::Control(0x0080), 40), Tuning::Tuned);
    assert_eq!(judge_tuning(&Sample::Missed(SdError::DataTimeout), 5), Tuning::Again);
    assert_eq!(judge_tuning(&Sample::Missed(SdError::DataTimeout), 40), Tuning::Failed);
}

#[test]
fn power_up_verdicts() {
    assert_eq!(judge_power_up(0x80FF_8000, 1), PowerUp::Ready);
    assert_eq!(judge_power_up(0x00FF_8000, 1), PowerUp::Retry);
    assert_eq!(judge_power_up(0x00FF_8000, 999), PowerUp::Retry);
    assert_eq!(judge_power_up(0x00FF_8000, 1000), PowerUp::Fail(SdError::NoCard));
    assert_eq!(judge_power_up(0x8000_0080, 1), PowerUp::Fail(SdError::UnsupportedCard));
    assert_eq!(judge_power_up(0, 1000), PowerUp::Fail(SdError::UnsupportedCard));
}

#[test]
fn width_acknowledgement() {
    assert_eq!(judge_width(&Ok(Response { kind: ResponseType::R1, raw: 0x900 })), Ok(()));
    assert_eq!(judge_width(&Ok(Response { kind: ResponseType::R1b, raw: 0x980 })), Err(SdError::BusWidth));
    assert_eq!(judge_width(&Err(SdError::CardError(0x0040_0000, "illegal command"))), Err(SdError::BusWidth));
    assert_eq!(judge_width(&Err(SdError::Timeout)), Err(SdError::Timeout));
}

#[test]
fn card_specific_data_gives_the_capacity() {
    // second layout: units of 1024 blocks
    let raw = (1u128 << 126) | (0x5B5u128 << 84) | (8191u128 << 48);
    let csd = parse_csd(raw, Family::Sd);
    assert_eq!(csd.capacity_blocks, 8_388_608);
    assert!(csd.switch_class);
    assert!(!csd.capacity_elsewhere);
    // first layout: count, multiplier and block length
    let raw = (10u128 << 80) | (4095u128 << 62) | (7u128 << 47);
    let csd = parse_csd(raw, Family::Sd);
    assert_eq!(csd.capacity_blocks, 4_194_304);
    assert!(!csd.switch_class);
    assert!(csd.capacity_elsewhere);
    let raw = (9u128 << 80) | (1000u128 << 62) | (3u128 << 47);
    assert_eq!(parse_csd(raw, Family::Mmc).capacity_blocks, 1001 * 32);
    // an MMC register is read in the first layout whatever its structure field
    let raw = (1u128 << 126) | (9u128 << 80) | (1u128 << 62);
    assert_eq!(parse_csd(raw, Family::Mmc).capacity_blocks, 8);
    assert_eq!(read_field(0xABCD << 100, 100, 16), 0xABCD);
    assert_eq!(read_field(u128::MAX, 96, 32), 0xFFFF_FFFF);
    assert_eq!(read_field(u128::MAX, 127, 1), 1);
}

#[test]
fn extended_card_specific_data() {
    let mut bytes = vec![0u8; 512];
    bytes[212] = 0x00;
    bytes[213] = 0xF0;
    bytes[214] = 0xD1;
    bytes[215] = 0x01;
    bytes[196] = 0x57;
    assert_eq!(parse_ext_csd(&bytes), Ok(ExtCsd { sectors: 0x01D1_F000, device_type: 0x57 }));
    assert_eq!(parse_ext_csd(&vec![0u8; 511]), Err(SdError::BadMessage));
    assert_eq!(parse_ext_csd(&vec![0u8; 513]), Err(SdError::BadMessage));
    assert_eq!(
        modes_of_device(0x57),
        Modes { high_speed: true, sdr50: false, sdr104: false, hs200: true, hs400: true }
    );
    assert_eq!(modes_of_device(0x01), Modes::legacy_only());
    assert!(Modes::legacy_only().supports(TimingMode::Legacy));
    assert!(!Modes::legacy_only().supports(TimingMode::HighSpeed));
}

#[test]
fn cards_are_addressed_by_block_or_by_byte() {
    let mut card = Card::blank();
    assert_eq!(card.capacity_blocks, 0);
    assert!(!card.is_block_addressed());
    for (kind, by_block) in [
        (CardType::Sd, false),
        (CardType::Sdhc, true),
        (CardType::Sdxc, true),
        (CardType::Sdio, false),
        (CardType::Mmc, false),
        (CardType::Emmc, true),
    ] {
        card.card_type = kind;
        assert_eq!(card.is_block_addressed(), by_block);
    }
}

#[test]
fn ladder_of_timing_modes() {
    let all = [
        TimingMode::Legacy,
        TimingMode::HighSpeed,
        TimingMode::Sdr50,
        TimingMode::Sdr104,
        TimingMode::Hs200,
        TimingMode::Hs400,
    ];
    for (i, m) in all.iter().enumerate() {
        assert_eq!(place_of(*m), i as u8);
        assert_eq!(place(i as u8), *m);
    }
}

fn identified_sd() -> Session {
    let mut s = Session::new(caps());
    s.advance(&Outcome::Done);
    s.advance(&Outcome::Done);
    s.advance(&r(ResponseType::R7, 0x1AA));
    s.advance(&r(ResponseType::R3, 0xC0FF_8000));
    s.advance(&r(ResponseType::R2, 0x1234));
    s.advance(&r(ResponseType::R6, 0xBEEF_0000));
    s.advance(&r(ResponseType::R2, (1u128 << 126) | (0x5B5u128 << 84) | (8191u128 << 48)));
    s
}

#[test]
fn session_walks_an_sd_card_through_its_states() {
    let mut s = Session::new(caps());
    assert_eq!(s.state, SessionState::PowerOff);
    assert_eq!(s.request(), Request::PowerUp);
    s.advance(&Outcome::Done);
    assert_eq!(s.state, SessionState::PowerOff);
    assert_eq!(s.request(), Request::Command(Command::new(0, 0, ResponseType::NoResponse)));
    s.advance(&r(ResponseType::NoResponse, 0));
    assert_eq!(s.state, SessionState::Idle);
    assert_eq!(s.request(), Request::Command(Command::new(8, 0x1AA, ResponseType::R7)));
    s.advance(&r(ResponseType::R7, 0x1AA));
    assert_eq!(s.state, SessionState::ReadyCheck);
    assert_eq!(s.request(), Request::Command(Command::app(41, 0x41FF_8000, ResponseType::R3)));
    s.advance(&r(ResponseType::R3, 0x00FF_8000));
    assert_eq!(s.state, SessionState::ReadyCheck);
    assert_eq!(s.attempts, 1);
    s.advance(&r(ResponseType::R3, 0xC0FF_8000));
    assert_eq!(s.state, SessionState::Identification);
    assert_eq!(s.card.card_type, CardType::Sdhc);
    assert_eq!(s.request(), Request::Command(Command::new(2, 0, ResponseType::R2)));
    s.advance(&r(ResponseType::R2, 0x1234));
    assert_eq!(s.card.cid, 0x1234);
    assert_eq!(s.request(), Request::Command(Command::new(3, 0, ResponseType::R6)));
    s.advance(&r(ResponseType::R6, 0xBEEF_0000));
    assert_eq!(s.card.rca, 0xBEEF);
    assert_eq!(s.request(), Request::Command(Command::new(9, 0xBEEF_0000, ResponseType::R2)));
    s.advance(&r(ResponseType::R2, (1u128 << 126) | (0x5B5u128 << 84) | (8191u128 << 48)));
    assert_eq!(s.state, SessionState::StandBy);
    assert_eq!(s.card.capacity_blocks, 8_388_608);
    assert_eq!(s.request(), Request::Command(Command::new(7, 0xBEEF_0000, ResponseType::R1b)));
    s.advance(&r(ResponseType::R1b, 0x700));
    assert_eq!(s.state, SessionState::Transfer);
    assert!(s.card.selected);
    assert!(!s.is_ready());
    assert_eq!(s.request(), Request::Width(BusWidth::Four));
    s.advance(&Outcome::Done);
    assert_eq!(s.width, BusWidth::Four);
    assert_eq!(s.request(), Request::Mode(TimingMode::HighSpeed));
    s.advance(&Outcome::Done);
    assert!(s.is_ready());
    assert_eq!(s.phase, Phase::Ready);
    assert_eq!(s.timing, TimingMode::HighSpeed);
    assert_eq!(s.request(), Request::Nothing);
    let ready = s;
    s.advance(&Outcome::Failed(SdError::Timeout));
    assert_eq!(s, ready);
}

#[test]
fn session_takes_a_silent_card_for_mmc() {
    let mut s = Session::new(caps());
    s.advance(&Outcome::Done);
    s.advance(&Outcome::Done);
    s.advance(&Outcome::Failed(SdError::Timeout));
    assert_eq!(s.state, SessionState::ReadyCheck);
    assert_eq!(s.request(), Request::Command(Command::app(41, 0x00FF_8000, ResponseType::R3)));
    s.advance(&Outcome::Failed(SdError::Timeout));
    assert_eq!(s.family, Family::Mmc);
    assert_eq!(s.request(), Request::Command(Command::new(1, 0x40FF_8000, ResponseType::R3)));
    s.advance(&r(ResponseType::R3, 0xC0FF_8080));
    assert_eq!(s.card.card_type, CardType::Emmc);
    s.advance(&r(ResponseType::R2, 7));
    assert_eq!(s.request(), Request::Command(Command::new(3, 0x0001_0000, ResponseType::R1)));
    s.advance(&r(ResponseType::R1, 0x500));
    assert_eq!(s.card.rca, 1);
    s.advance(&r(ResponseType::R2, (9u128 << 80) | (0xFFFu128 << 62) | (7u128 << 47)));
    s.advance(&r(ResponseType::R1b, 0x700));
    assert_eq!(s.state, SessionState::Transfer);
    assert_eq!(s.request(), Request::ReadExtCsd);
    s.advance(&Outcome::ExtCsd(ExtCsd { sectors: 30_535_680, device_type: 0x57 }));
    assert_eq!(s.card.capacity_blocks, 30_535_680);
    assert_eq!(s.request(), Request::Width(BusWidth::Eight));
    // the widest bus fails, the next narrower is tried, and nothing faults
    s.advance(&Outcome::Failed(SdError::BusWidth));
    assert_eq!(s.state, SessionState::Transfer);
    assert_eq!(s.request(), Request::Width(BusWidth::Four));
    s.advance(&Outcome::Done);
    assert_eq!(s.width, BusWidth::Four);
    // the fastest mode needs eight lines, so the ladder starts one below
    assert_eq!(s.request(), Request::Mode(TimingMode::Hs200));
}

#[test]
fn session_without_any_answer_has_no_card() {
    let mut s = Session::new(caps());
    s.advance(&Outcome::Done);
    s.advance(&Outcome::Done);
    s.advance(&Outcome::Failed(SdError::Timeout));
    s.advance(&Outcome::Failed(SdError::Timeout));
    s.advance(&Outcome::Failed(SdError::Timeout));
    assert_eq!(s.state, SessionState::Faulted(SdError::NoCard));
    assert_eq!(s.phase, Phase::Failed);
    assert_eq!(s.request(), Request::Nothing);
}

#[test]
fn session_refuses_a_card_outside_the_voltage_window() {
    let mut s = Session::new(caps());
    s.advance(&Outcome::Done);
    s.advance(&Outcome::Done);
    s.advance(&r(ResponseType::R7, 0x1AA));
    s.advance(&r(ResponseType::R3, 0x8000_0080));
    assert_eq!(s.state, SessionState::Faulted(SdError::UnsupportedCard));
    // a wrong echo is an unsupported card too
    let mut s = Session::new(caps());
    s.advance(&Outcome::Done);
    s.advance(&Outcome::Done);
    s.advance(&r(ResponseType::R7, 0x1AB));
    assert_eq!(s.state, SessionState::Faulted(SdError::UnsupportedCard));
    // a response of the wrong type is told apart
    let mut s = Session::new(caps());
    s.advance(&Outcome::Done);
    s.advance(&Outcome::Done);
    s.advance(&r(ResponseType::R1, 0x1AA));
    assert_eq!(s.state, SessionState::Faulted(SdError::InvalidResponseType));
}

#[test]
fn session_faults_on_the_first_fatal_error() {
    let mut s = Session::new(caps());
    s.advance(&Outcome::Failed(SdError::CurrentLimit));
    assert_eq!(s.state, SessionState::Faulted(SdError::CurrentLimit));
    let mut s = identified_sd();
    s.advance(&Outcome::Failed(SdError::Crc));
    assert_eq!(s.state, SessionState::Faulted(SdError::Crc));
    let mut s = Session::new(caps());
    s.advance(&Outcome::ExtCsd(ExtCsd { sectors: 0, device_type: 0 }));
    assert_eq!(s.state, SessionState::Faulted(SdError::InvalidResponse));
}

#[test]
fn session_degrades_mode_by_mode() {
    let mut s = identified_sd();
    s.advance(&r(ResponseType::R1b, 0x700));
    s.advance(&Outcome::Done);
    // card and host share every mode of an eMMC on eight lines
    s.width = BusWidth::Eight;
    s.card.modes = all_modes();
    s.phase = Phase::Mode(TimingMode::Hs400);
    let ladder = [
        TimingMode::Hs200,
        TimingMode::Sdr104,
        TimingMode::Sdr50,
        TimingMode::HighSpeed,
        TimingMode::Legacy,
    ];
    for next in ladder {
        s.advance(&Outcome::Failed(SdError::TuningFailed));
        assert_eq!(s.state, SessionState::Transfer);
        assert_eq!(s.phase, Phase::Mode(next));
    }
    // only the legacy mode failing faults the session
    let mut ok = s;
    ok.advance(&Outcome::Done);
    assert_eq!(ok.phase, Phase::Ready);
    assert_eq!(ok.timing, TimingMode::Legacy);
    s.advance(&Outcome::Failed(SdError::Timeout));
    assert_eq!(s.state, SessionState::Faulted(SdError::Timeout));
}

#[test]
fn session_skips_modes_that_are_not_shared() {
    let mut s = identified_sd();
    s.advance(&r(ResponseType::R1b, 0x700));
    s.advance(&Outcome::Done);
    s.width = BusWidth::Four;
    s.card.modes = Modes { high_speed: true, sdr50: false, sdr104: false, hs200: true, hs400: true };
    assert!(s.can_use(TimingMode::Hs200));
    assert!(!s.can_use(TimingMode::Hs400));
    assert!(!s.can_use(TimingMode::Sdr104));
    assert_eq!(s.fastest_below(5), TimingMode::Hs200);
    assert_eq!(s.fastest_below(3), TimingMode::HighSpeed);
    assert_eq!(s.fastest_below(0), TimingMode::Legacy);
    s.phase = Phase::Mode(TimingMode::Hs200);
    s.advance(&Outcome::Failed(SdError::Crc));
    assert_eq!(s.phase, Phase::Mode(TimingMode::HighSpeed));
    s.advance(&Outcome::Done);
    assert_eq!(s.timing, TimingMode::HighSpeed);
    assert_eq!(s.voltage, Voltage::V330);
}

#[test]
fn switch_status_names_the_function_taken() {
    let mut status = vec![0u8; 64];
    status[16] = 0x01;
    assert!(switch_took(&status, 1));
    assert!(!switch_took(&status, 2));
    status[16] = 0xF3;
    assert!(switch_took(&status, 3));
    assert!(!switch_took(&vec![0u8; 63], 0));
    assert!(switch_took(&vec![0u8; 64], 0));
}

#[test]
fn traced_bus_hands_every_operation_on() {
    let mut bus = Traced::new(Fixed::new(0x55));
    assert_eq!(bus.read(Reg::PresentState), 0x55);
    bus.write(Reg::Argument, 9);
    bus.sleep::<NoDelay>(10);
    assert_eq!(bus.bus().reads, 1);
    bus.bus_mut().value = 0x66;
    assert_eq!(bus.read(Reg::IntStatus), 0x66);
    let inner = bus.into_bus();
    assert_eq!(inner.reads, 2);
    assert_eq!(inner.writes, vec![(Reg::Argument, 9)]);
}
