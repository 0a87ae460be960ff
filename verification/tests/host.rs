use std::collections::{HashMap, VecDeque};

use sdmmc::card::CardType;
use sdmmc::command::{Command, ResponseType};
use sdmmc::dma::{build_descriptor_chain, TransferDescriptor};
use sdmmc::emmc::EMmcHost;
use sdmmc::err::SdError;
use sdmmc::regs::{Bus, Kernel, Reg, Traced};
use sdmmc::session::{HostCaps, Outcome, Phase, Request, SessionState};
use sdmmc::signal::{BusWidth, TimingMode, Voltage};
use sdmmc::transfer::Direction;
use sdmmc::card::Modes;

const CC: u32 = 0x0000_0001;
const TC: u32 = 0x0000_0002;
const BWR: u32 = 0x0000_0010;
const BRR: u32 = 0x0000_0020;
const ERR: u32 = 0x0000_8000;
const CMD_TIMEOUT: u32 = 0x0001_0000;
const ADMA_ERR: u32 = 0x0200_0000;
const DAT_LEVELS: u32 = 0x00F0_0000;
const INSERTED: u32 = 0x0001_0000;
const EXECUTE_TUNING: u32 = 0x0040;
const SAMPLING_CLOCK: u32 = 0x0080;
const LOW_VOLTAGE: u32 = 0x0008;

#[derive(Clone, Copy, PartialEq, Eq, Debug)]
enum Kind {
    Absent,
    Sdhc,
    Emmc,
}

/// A controller with one card behind it, simulated at the level of the
/// registers.
struct Sim {
    kind: Kind,
    capacity_blocks: u64,
    int_status: u32,
    argument: u32,
    response: [u32; 4],
    clock: u32,
    power: u32,
    ctrl2: u32,
    adma: u64,
    app_next: bool,
    selected: bool,
    busy_answers: u32,
    storage: HashMap<u64, Vec<u8>>,
    fifo_out: VecDeque<u32>,
    fifo_in: Vec<u32>,
    expect_in: usize,
    target: u64,
    reading: bool,
    writing: bool,
    tuning_count: u32,
    memory: Vec<u8>,
    memory_base: u64,
    tables: HashMap<u64, Vec<(u32, u32, u32)>>,
    // knobs
    never_complete: bool,
    busy_lines: u32,
    never_settle: bool,
    tuning_after: Option<u32>,
    status_bits: u32,
    refuse_timing: Vec<u32>,
    offers_low_voltage: bool,
    no_data: bool,
    fault_after_words: Option<(usize, u32)>,
    words_out: usize,
    power_stuck: bool,
    hold_busy: bool,
    forgets_announcement: bool,
    fails_switch: bool,
    // records
    writes: Vec<(Reg, u32)>,
    commands: Vec<u32>,
}

impl Sim {
    fn new(kind: Kind, capacity_blocks: u64) -> Sim {
        Sim {
            kind,
            capacity_blocks,
            int_status: 0,
            argument: 0,
            response: [0; 4],
            clock: 0,
            power: 0,
            ctrl2: 0,
            adma: 0,
            app_next: false,
            selected: false,
            busy_answers: 3,
            storage: HashMap::new(),
            fifo_out: VecDeque::new(),
            fifo_in: Vec::new(),
            expect_in: 0,
            target: 0,
            reading: false,
            writing: false,
            tuning_count: 0,
            memory: Vec::new(),
            memory_base: 0,
            tables: HashMap::new(),
            never_complete: false,
            busy_lines: 0,
            never_settle: false,
            tuning_after: Some(5),
            status_bits: 0,
            refuse_timing: Vec::new(),
            offers_low_voltage: false,
            no_data: false,
            fault_after_words: None,
            words_out: 0,
            power_stuck: false,
            hold_busy: false,
            forgets_announcement: false,
            fails_switch: false,
            writes: Vec::new(),
            commands: Vec::new(),
        }
    }

    fn block(&self, n: u64) -> Vec<u8> {
        match self.storage.get(&n) {
            Some(b) => b.clone(),
            None => vec![0u8; 512],
        }
    }

    fn long(&mut self, value: u128) {
        let regs = value >> 8;
        self.response = [
            regs as u32,
            (regs >> 32) as u32,
            (regs >> 64) as u32,
            (regs >> 96) as u32,
        ];
    }

    fn csd(&self) -> u128 {
        match self.kind {
            Kind::Sdhc => {
                (1u128 << 126) | (0x5B5u128 << 84) | (((self.capacity_blocks / 1024 - 1) as u128) << 48)
            }
            _ => (0x0F5u128 << 84) | (9u128 << 80) | (0xFFFu128 << 62) | (7u128 << 47),
        }
    }

    fn ext_csd(&self) -> Vec<u8> {
        let mut x = vec![0u8; 512];
        let sectors = self.capacity_blocks as u32;
        x[212] = sectors as u8;
        x[213] = (sectors >> 8) as u8;
        x[214] = (sectors >> 16) as u8;
        x[215] = (sectors >> 24) as u8;
        x[196] = 0x57;
        x
    }

    fn queue(&mut self, bytes: &[u8]) {
        if self.no_data {
            return;
        }
        for chunk in bytes.chunks(4) {
            self.fifo_out.push_back(u32::from_le_bytes([chunk[0], chunk[1], chunk[2], chunk[3]]));
        }
        self.reading = true;
    }

    fn status(&self) -> u32 {
        0x0000_0900 | self.status_bits
    }

    fn table(&self) -> Option<Vec<(u64, usize)>> {
        let words = self.tables.get(&self.adma)?;
        let mut pieces = Vec::new();
        for (attr, low, high) in words {
            if attr & 0x01 == 0 || attr & 0x20 == 0 {
                return None;
            }
            let len = match (attr >> 16) as usize {
                0 => 65536,
                n => n,
            };
            pieces.push((((*high as u64) << 32) | *low as u64, len));
            if attr & 0x02 != 0 {
                return Some(pieces);
            }
        }
        None
    }

    fn move_by_chain(&mut self, write: bool, start: u64, blocks: u64) {
        let pieces = match self.table() {
            Some(p) => p,
            None => {
                self.int_status |= ERR | ADMA_ERR;
                return;
            }
        };
        let mut offsets = Vec::new();
        for (addr, len) in pieces {
            for k in 0..len {
                offsets.push((addr - self.memory_base) as usize + k);
            }
        }
        if offsets.len() as u64 != blocks * 512 {
            self.int_status |= ERR | ADMA_ERR;
            return;
        }
        for b in 0..blocks {
            let at = (b * 512) as usize;
            if write {
                let bytes: Vec<u8> = offsets[at..at + 512].iter().map(|o| self.memory[*o]).collect();
                self.storage.insert(start + b, bytes);
            } else {
                let bytes = self.block(start + b);
                for k in 0..512 {
                    self.memory[offsets[at + k]] = bytes[k];
                }
            }
        }
        self.int_status |= TC;
    }

    fn command(&mut self, word: u32) {
        let opcode = (word >> 24) & 0x3F;
        let dma = word & 0x0001 != 0;
        self.commands.push(opcode);
        if self.never_complete {
            return;
        }
        let app = self.app_next;
        self.app_next = false;
        let arg = self.argument;
        let mut answered = true;
        match (self.kind, app, opcode) {
            (_, _, 0) => {
                self.selected = false;
            }
            (Kind::Absent, _, _) => answered = false,
            (Kind::Sdhc, _, 8) => self.response[0] = arg & 0xFFF,
            (Kind::Sdhc, _, 55) => {
                self.app_next = true;
                self.response[0] = self.status() | if self.forgets_announcement { 0 } else { 0x20 };
            }
            (Kind::Sdhc, true, 41) | (Kind::Emmc, false, 1) => {
                let mut ocr = 0x00FF_8000 | 0x4000_0000;
                if self.busy_answers == 0 {
                    ocr |= 0x8000_0000;
                    if self.offers_low_voltage && arg & 0x0100_0000 != 0 {
                        ocr |= 0x0100_0000;
                    }
                } else {
                    self.busy_answers -= 1;
                }
                self.response[0] = ocr;
            }
            (Kind::Sdhc, _, 11) => self.response[0] = self.status(),
            (_, _, 2) => self.long(0x1B53_4D30_3030_3030_1012_3456_7801_4A00),
            (Kind::Sdhc, _, 3) => self.response[0] = 0xAAAA_0500,
            (Kind::Emmc, _, 3) => self.response[0] = self.status(),
            (_, _, 9) => {
                let csd = self.csd();
                self.long(csd);
            }
            (_, _, 7) => {
                self.selected = true;
                self.response[0] = self.status();
            }
            (Kind::Emmc, _, 8) if self.selected => {
                self.response[0] = self.status();
                let x = self.ext_csd();
                self.queue(&x);
            }
            (Kind::Sdhc, true, 6) => self.response[0] = self.status(),
            (Kind::Sdhc, false, 6) => {
                self.response[0] = self.status();
                let mut x = vec![0u8; 64];
                x[16] = if self.fails_switch { 0x0F } else { (arg & 0x0F) as u8 };
                self.queue(&x);
            }
            (Kind::Emmc, _, 6) => {
                let index = (arg >> 16) & 0xFF;
                let value = (arg >> 8) & 0xFF;
                self.response[0] = self.status();
                if index == 185 && self.refuse_timing.contains(&value) {
                    self.response[0] |= 0x0040_0000;
                }
                if self.fails_switch {
                    self.response[0] |= 0x80;
                }
            }
            (_, _, 13) => self.response[0] = self.status(),
            (_, _, 17) | (_, _, 18) => {
                let blocks = if opcode == 17 { 1 } else { self.block_count() };
                self.response[0] = self.status();
                if dma {
                    self.move_by_chain(false, arg as u64, blocks);
                } else {
                    for b in 0..blocks {
                        let bytes = self.block(arg as u64 + b);
                        self.queue(&bytes);
                    }
                }
            }
            (_, _, 24) | (_, _, 25) => {
                let blocks = if opcode == 24 { 1 } else { self.block_count() };
                self.response[0] = self.status();
                if dma {
                    self.move_by_chain(true, arg as u64, blocks);
                } else {
                    self.target = arg as u64;
                    self.expect_in = (blocks * 128) as usize;
                    self.fifo_in.clear();
                    self.writing = true;
                }
            }
            (Kind::Sdhc, _, 19) | (Kind::Emmc, _, 21) => {
                self.tuning_count += 1;
                self.int_status |= BRR;
                if let Some(n) = self.tuning_after {
                    if self.tuning_count >= n {
                        self.ctrl2 = (self.ctrl2 & !EXECUTE_TUNING) | SAMPLING_CLOCK;
                    }
                }
            }
            _ => answered = false,
        }
        if answered {
            self.int_status |= CC;
        } else {
            self.int_status |= ERR | CMD_TIMEOUT;
        }
    }

    fn block_count(&self) -> u64 {
        self.writes
            .iter()
            .rev()
            .find(|(reg, _)| *reg == Reg::BlockCount)
            .map(|(_, v)| *v as u64)
            .unwrap_or(1)
    }

    fn count_writes(&self, reg: Reg) -> usize {
        self.writes.iter().filter(|(r, _)| *r == reg).count()
    }
}

impl Bus for Sim {
    fn read(&mut self, reg: Reg) -> u32 {
        match reg {
            Reg::IntStatus => {
                let mut v = self.int_status;
                if self.reading && !self.fifo_out.is_empty() {
                    v |= BRR;
                }
                if self.writing && self.fifo_in.len() < self.expect_in {
                    v |= BWR;
                }
                v
            }
            Reg::PresentState => {
                let settled = !(self.never_settle && self.ctrl2 & LOW_VOLTAGE != 0);
                self.busy_lines | INSERTED | if settled && !self.hold_busy { DAT_LEVELS } else { 0 }
            }
            Reg::Response0 => self.response[0],
            Reg::Response1 => self.response[1],
            Reg::Response2 => self.response[2],
            Reg::Response3 => self.response[3],
            Reg::BufferData => {
                let w = self.fifo_out.pop_front().unwrap_or(0);
                self.words_out += 1;
                if let Some((n, bits)) = self.fault_after_words {
                    if self.words_out == n {
                        self.int_status |= ERR | bits;
                    }
                }
                if self.reading && self.fifo_out.is_empty() {
                    self.reading = false;
                    self.int_status |= TC;
                }
                w
            }
            Reg::ClockControl => self.clock | if self.clock & 1 != 0 { 2 } else { 0 },
            Reg::PowerControl => if self.power_stuck { 0 } else { self.power },
            Reg::HostControl2 => self.ctrl2,
            Reg::SoftwareReset => 0,
            _ => 0,
        }
    }

    fn write(&mut self, reg: Reg, value: u32) {
        self.writes.push((reg, value));
        match reg {
            Reg::IntStatus => self.int_status &= !value,
            Reg::Argument => self.argument = value,
            Reg::Command => self.command(value),
            Reg::ClockControl => self.clock = value,
            Reg::PowerControl => self.power = value,
            Reg::HostControl2 => {
                if value & EXECUTE_TUNING != 0 {
                    self.tuning_count = 0;
                }
                self.ctrl2 = value;
            }
            Reg::AdmaAddressLow => self.adma = (self.adma & !0xFFFF_FFFF) | value as u64,
            Reg::AdmaAddressHigh => self.adma = (self.adma & 0xFFFF_FFFF) | ((value as u64) << 32),
            Reg::SoftwareReset => {
                self.fifo_out.clear();
                self.fifo_in.clear();
                self.reading = false;
                self.writing = false;
            }
            Reg::BufferData => {
                self.fifo_in.push(value);
                if self.writing && self.fifo_in.len() == self.expect_in {
                    let mut bytes = Vec::new();
                    for w in &self.fifo_in {
                        bytes.extend_from_slice(&w.to_le_bytes());
                    }
                    for (b, chunk) in bytes.chunks(512).enumerate() {
                        self.storage.insert(self.target + b as u64, chunk.to_vec());
                    }
                    self.writing = false;
                    self.int_status |= TC;
                }
            }
            _ => {}
        }
    }
}

struct NoDelay;

impl Kernel for NoDelay {
    fn sleep(_us: u64) {}
}

fn ready_sdhc() -> (EMmcHost, Traced<Sim>) {
    let mut sim = Traced::new(Sim::new(Kind::Sdhc, 8_388_608));
    let mut host = EMmcHost::new(0xfe2e_0000);
    assert_eq!(host.init::<Sim, NoDelay>(&mut sim), Ok(()));
    (host, sim)
}

fn pattern(len: usize, seed: u8) -> Vec<u8> {
    (0..len).map(|i| (i as u8).wrapping_mul(31).wrapping_add(seed)).collect()
}

#[test]
fn init_brings_up_a_high_capacity_sd_card() {
    let (host, sim) = ready_sdhc();
    assert_eq!(host.state(), SessionState::Transfer);
    assert_eq!(host.session.phase, Phase::Ready);
    assert_eq!(host.card().capacity_blocks, 8_388_608);
    assert_eq!(host.card().card_type, CardType::Sdhc);
    assert_eq!(host.bus_width(), BusWidth::Four);
    assert_eq!(host.card().rca, 0xAAAA);
    assert!(host.card().selected);
    assert_eq!(host.timing(), TimingMode::HighSpeed);
    assert_eq!(host.voltage(), Voltage::V330);
    assert_eq!(host.clock_hz, 50_000_000);
    // identification runs in this order
    let expect = [0, 8, 55, 41];
    assert_eq!(&sim.bus().commands[..4], &expect);
}

#[test]
fn init_without_a_card_faults_with_no_card() {
    let mut sim = Traced::new(Sim::new(Kind::Absent, 0));
    let mut host = EMmcHost::new(0);
    assert_eq!(host.init::<Sim, NoDelay>(&mut sim), Err(SdError::NoCard));
    assert_eq!(host.state(), SessionState::Faulted(SdError::NoCard));
    // a second attempt starts from power-off again
    let mut sim = Traced::new(Sim::new(Kind::Sdhc, 8_388_608));
    assert_eq!(host.init::<Sim, NoDelay>(&mut sim), Ok(()));
    assert_eq!(host.state(), SessionState::Transfer);
}

#[test]
fn init_of_a_card_that_never_powers_up_gives_up() {
    let mut sim = Traced::new(Sim::new(Kind::Sdhc, 8_388_608));
    sim.bus_mut().busy_answers = u32::MAX;
    let mut host = EMmcHost::new(0);
    assert_eq!(host.init::<Sim, NoDelay>(&mut sim), Err(SdError::NoCard));
    assert_eq!(sim.bus().commands.iter().filter(|c| **c == 41).count(), 1000);
}

#[test]
fn init_brings_up_an_emmc_in_its_fastest_mode() {
    let mut sim = Traced::new(Sim::new(Kind::Emmc, 30_535_680));
    let mut host = EMmcHost::new(0);
    assert_eq!(host.init::<Sim, NoDelay>(&mut sim), Ok(()));
    assert_eq!(host.card().card_type, CardType::Emmc);
    assert_eq!(host.card().capacity_blocks, 30_535_680);
    assert_eq!(host.card().rca, 1);
    assert_eq!(host.bus_width(), BusWidth::Eight);
    assert_eq!(host.timing(), TimingMode::Hs400);
    assert_eq!(host.voltage(), Voltage::V180);
    assert!(host.tuned);
}

#[test]
fn negotiation_falls_back_when_the_fastest_mode_is_refused() {
    let mut sim = Traced::new(Sim::new(Kind::Emmc, 30_535_680));
    sim.bus_mut().refuse_timing = vec![3];
    let mut host = EMmcHost::new(0);
    assert_eq!(host.init::<Sim, NoDelay>(&mut sim), Ok(()));
    assert_eq!(host.state(), SessionState::Transfer);
    assert_eq!(host.timing(), TimingMode::Hs200);
    assert!(host.tuned);
}

#[test]
fn negotiation_falls_back_past_modes_that_cannot_be_tuned() {
    let mut sim = Traced::new(Sim::new(Kind::Emmc, 30_535_680));
    sim.bus_mut().tuning_after = None;
    let mut host = EMmcHost::new(0);
    assert_eq!(host.init::<Sim, NoDelay>(&mut sim), Ok(()));
    assert_eq!(host.state(), SessionState::Transfer);
    assert_eq!(host.timing(), TimingMode::HighSpeed);
    assert_eq!(host.clock_hz, 50_000_000);
}

#[test]
fn negotiation_ends_in_legacy_when_every_switch_is_refused() {
    let mut sim = Traced::new(Sim::new(Kind::Emmc, 30_535_680));
    sim.bus_mut().refuse_timing = vec![1, 2, 3];
    let mut host = EMmcHost::new(0);
    assert_eq!(host.init::<Sim, NoDelay>(&mut sim), Ok(()));
    assert_eq!(host.timing(), TimingMode::Legacy);
    assert_eq!(host.clock_hz, 25_000_000);
}

#[test]
fn write_then_read_returns_the_same_bytes() {
    let (host, mut sim) = ready_sdhc();
    for (blocks, start) in [(1u32, 0u32), (2, 10), (3, 100), (8, 1000), (64, 5000)] {
        let data = pattern(blocks as usize * 512, blocks as u8);
        assert_eq!(host.write_blocks::<Sim, NoDelay>(&mut sim, start, blocks, &data), Ok(()));
        let mut back = vec![0u8; blocks as usize * 512];
        assert_eq!(host.read_blocks::<Sim, NoDelay>(&mut sim, start, blocks, &mut back), Ok(()));
        assert_eq!(back, data);
    }
}

#[test]
fn transfer_moves_data_in_both_directions() {
    let (host, mut sim) = ready_sdhc();
    let mut data = pattern(1024, 9);
    let sent = data.clone();
    assert_eq!(
        host.transfer::<Sim, NoDelay>(&mut sim, Direction::Write, 7, 2, &mut data),
        Ok(())
    );
    assert_eq!(data, sent);
    assert_eq!(sim.bus().block(7), sent[..512].to_vec());
    assert_eq!(sim.bus().block(8), sent[512..].to_vec());
    let mut back = vec![0u8; 1024];
    assert_eq!(
        host.transfer::<Sim, NoDelay>(&mut sim, Direction::Read, 7, 2, &mut back),
        Ok(())
    );
    assert_eq!(back, sent);
}

#[test]
fn multi_block_transfer_uses_the_automatic_stop() {
    let (host, mut sim) = ready_sdhc();
    let data = pattern(1024, 1);
    host.write_blocks::<Sim, NoDelay>(&mut sim, 0, 2, &data).unwrap();
    let word = sim.bus().writes.iter().rev().find(|(r, v)| *r == Reg::Command && (v >> 24) == 25).unwrap().1;
    // multi block, block count and automatic CMD12, no read, no DMA
    assert_eq!(word & 0xFFFF, 0x0026);
    host.write_blocks::<Sim, NoDelay>(&mut sim, 0, 1, &data[..512].to_vec()).unwrap();
    let word = sim.bus().writes.iter().rev().find(|(r, v)| *r == Reg::Command && (v >> 24) == 24).unwrap().1;
    assert_eq!(word & 0xFFFF, 0x0000);
}

#[test]
fn both_paths_leave_the_same_bytes_on_the_card() {
    let mut sim = Traced::new(Sim::new(Kind::Sdhc, 8_388_608));
    let caps = HostCaps {
        modes: Modes { high_speed: true, sdr50: false, sdr104: false, hs200: false, hs400: false },
        eight_bit: false,
        low_voltage: false,
    };
    let mut host = EMmcHost::with_caps(0, 200_000_000, caps, true);
    assert_eq!(host.init::<Sim, NoDelay>(&mut sim), Ok(()));
    let data = pattern(4 * 512, 77);

    // programmed I/O needs no descriptor setup
    let mut pio = host;
    pio.dma = false;
    assert_eq!(pio.write_blocks::<Sim, NoDelay>(&mut sim, 20, 4, &data), Ok(()));

    // the same buffer by descriptor chain, lying across a boundary
    let base = 0x0800_0000u64 - 1024;
    sim.bus_mut().memory = data.clone();
    sim.bus_mut().memory_base = base;
    let chain = build_descriptor_chain(base, data.len()).unwrap();
    assert_eq!(chain.len(), 2);
    sim.bus_mut().tables.insert(0x1_0000_1000, chain.iter().map(|d| d.encode()).collect());
    assert_eq!(
        host.transfer_dma::<Sim, NoDelay>(&mut sim, Direction::Write, 40, 4, &chain, 0x1_0000_1000),
        Ok(())
    );
    for b in 0..4 {
        assert_eq!(sim.bus().block(20 + b), sim.bus().block(40 + b));
        assert_eq!(sim.bus().block(40 + b), data[b as usize * 512..(b as usize + 1) * 512].to_vec());
    }

    // and back through the chain
    sim.bus_mut().memory = vec![0u8; data.len()];
    assert_eq!(
        host.transfer_dma::<Sim, NoDelay>(&mut sim, Direction::Read, 20, 4, &chain, 0x1_0000_1000),
        Ok(())
    );
    assert_eq!(sim.bus().memory, data);
}

#[test]
fn descriptor_transfer_refuses_a_chain_of_the_wrong_length() {
    let mut sim = Traced::new(Sim::new(Kind::Sdhc, 8_388_608));
    let mut host = EMmcHost::new(0);
    host.dma = true;
    assert_eq!(host.init::<Sim, NoDelay>(&mut sim), Ok(()));
    let chain = build_descriptor_chain(0x1000, 1024).unwrap();
    let seen = sim.bus().writes.len();
    assert_eq!(
        host.transfer_dma::<Sim, NoDelay>(&mut sim, Direction::Write, 0, 4, &chain, 0x2000),
        Err(SdError::AdmaError)
    );
    assert_eq!(sim.bus().writes.len(), seen);
    host.dma = false;
    assert_eq!(
        host.transfer_dma::<Sim, NoDelay>(&mut sim, Direction::Write, 0, 2, &chain, 0x2000),
        Err(SdError::InvalidArgument)
    );
}

#[test]
fn descriptor_fault_of_the_controller_is_an_adma_error() {
    let mut sim = Traced::new(Sim::new(Kind::Sdhc, 8_388_608));
    let mut host = EMmcHost::new(0);
    host.dma = true;
    assert_eq!(host.init::<Sim, NoDelay>(&mut sim), Ok(()));
    let chain = build_descriptor_chain(0x1000, 512).unwrap();
    // no table was laid down where the controller is told to look
    assert_eq!(
        host.transfer_dma::<Sim, NoDelay>(&mut sim, Direction::Read, 0, 1, &chain, 0x2000),
        Err(SdError::AdmaError)
    );
}

#[test]
fn command_in_flight_refuses_the_next() {
    let (host, mut sim) = ready_sdhc();
    sim.bus_mut().busy_lines = 1;
    let seen = sim.bus().writes.len();
    let cmd = Command::new(13, 0xAAAA_0000, ResponseType::R1);
    assert_eq!(host.execute::<Sim, NoDelay>(&mut sim, &cmd).unwrap_err(), SdError::InvalidArgument);
    assert_eq!(sim.bus().writes.len(), seen);
    // a busy data line stops only what needs it
    sim.bus_mut().busy_lines = 2;
    assert!(host.execute::<Sim, NoDelay>(&mut sim, &cmd).is_ok());
    let busy = Command::new(7, 0xAAAA_0000, ResponseType::R1b);
    assert_eq!(host.execute::<Sim, NoDelay>(&mut sim, &busy).unwrap_err(), SdError::InvalidArgument);
    let data = pattern(512, 0);
    assert_eq!(
        host.write_blocks::<Sim, NoDelay>(&mut sim, 0, 1, &data),
        Err(SdError::InvalidArgument)
    );
}

#[test]
fn command_that_never_completes_times_out() {
    let (host, mut sim) = ready_sdhc();
    let before = host;
    sim.bus_mut().never_complete = true;
    let resets = sim.bus().count_writes(Reg::SoftwareReset);
    let cmd = Command::new(13, 0xAAAA_0000, ResponseType::R1);
    assert_eq!(host.execute::<Sim, NoDelay>(&mut sim, &cmd).unwrap_err(), SdError::Timeout);
    assert_eq!(host, before);
    // the lines were reset and the status cleared: nothing is left pending
    assert_eq!(sim.bus().count_writes(Reg::SoftwareReset), resets + 1);
    assert_eq!(sim.bus().writes[sim.bus().writes.len() - 2], (Reg::SoftwareReset, 0x06));
    assert_eq!(sim.bus().writes[sim.bus().writes.len() - 1], (Reg::IntStatus, 0xFFFF_FFFF));
    sim.bus_mut().never_complete = false;
    let r = host.execute::<Sim, NoDelay>(&mut sim, &cmd).unwrap();
    assert_eq!(r.card_status(), Ok(0x900));
}

#[test]
fn card_status_fault_after_a_write_is_a_card_error() {
    let (host, mut sim) = ready_sdhc();
    sim.bus_mut().status_bits = 1 << 19;
    let data = pattern(512, 3);
    assert_eq!(
        host.write_blocks::<Sim, NoDelay>(&mut sim, 0, 1, &data),
        Err(SdError::CardError(0x0008_0900, "out of range"))
    );
}

#[test]
fn request_that_is_no_whole_number_of_blocks_is_refused() {
    let (host, mut sim) = ready_sdhc();
    let seen = sim.bus().writes.len();
    let mut short = vec![0u8; 500];
    assert_eq!(
        host.transfer::<Sim, NoDelay>(&mut sim, Direction::Write, 0, 1, &mut short),
        Err(SdError::InvalidArgument)
    );
    let mut long = vec![0u8; 513];
    assert_eq!(
        host.transfer::<Sim, NoDelay>(&mut sim, Direction::Read, 0, 1, &mut long),
        Err(SdError::InvalidArgument)
    );
    assert_eq!(long, vec![0u8; 513]);
    let mut none: Vec<u8> = Vec::new();
    assert_eq!(
        host.transfer::<Sim, NoDelay>(&mut sim, Direction::Read, 0, 0, &mut none),
        Err(SdError::InvalidArgument)
    );
    let mut beyond = vec![0u8; 512];
    assert_eq!(
        host.transfer::<Sim, NoDelay>(&mut sim, Direction::Read, 8_388_608, 1, &mut beyond),
        Err(SdError::InvalidArgument)
    );
    assert_eq!(sim.bus().writes.len(), seen);
}

#[test]
fn transfer_outside_the_transfer_state_is_refused() {
    let mut sim = Traced::new(Sim::new(Kind::Sdhc, 8_388_608));
    let host = EMmcHost::new(0);
    let mut buffer = vec![0u8; 512];
    assert_eq!(
        host.read_blocks::<Sim, NoDelay>(&mut sim, 0, 1, &mut buffer),
        Err(SdError::InvalidArgument)
    );
    assert_eq!(
        host.write_blocks::<Sim, NoDelay>(&mut sim, 0, 1, &buffer),
        Err(SdError::InvalidArgument)
    );
    assert!(sim.bus().writes.is_empty());
    let (mut host, mut sim) = ready_sdhc();
    host.power_off();
    assert_eq!(host.state(), SessionState::PowerOff);
    assert_eq!(
        host.read_blocks::<Sim, NoDelay>(&mut sim, 0, 1, &mut buffer),
        Err(SdError::InvalidArgument)
    );
}

#[test]
fn tuning_that_never_converges_fails_after_its_budget() {
    let (mut host, mut sim) = ready_sdhc();
    sim.bus_mut().tuning_after = None;
    sim.bus_mut().commands.clear();
    assert_eq!(
        host.run_tuning::<Sim, NoDelay>(&mut sim, TimingMode::Sdr104),
        Err(SdError::TuningFailed)
    );
    assert_eq!(sim.bus().commands.iter().filter(|c| **c == 19).count(), 40);
    assert!(!host.tuned);
}

#[test]
fn tuning_that_converges_tunes_the_host() {
    let (mut host, mut sim) = ready_sdhc();
    sim.bus_mut().tuning_after = Some(7);
    sim.bus_mut().commands.clear();
    assert_eq!(host.run_tuning::<Sim, NoDelay>(&mut sim, TimingMode::Sdr104), Ok(()));
    assert_eq!(sim.bus().commands.len(), 7);
    assert!(host.tuned);
    let seen = sim.bus().writes.len();
    assert_eq!(
        host.run_tuning::<Sim, NoDelay>(&mut sim, TimingMode::HighSpeed),
        Err(SdError::InvalidArgument)
    );
    assert_eq!(sim.bus().writes.len(), seen);
}

#[test]
fn voltage_that_never_settles_fails_the_switch() {
    let (mut host, mut sim) = ready_sdhc();
    sim.bus_mut().never_settle = true;
    let before = host;
    assert_eq!(
        host.switch_voltage::<Sim, NoDelay>(&mut sim, Voltage::V180),
        Err(SdError::VoltageSwitchFailed)
    );
    assert_eq!(host, before);
}

#[test]
fn voltage_switch_records_the_new_voltage() {
    let (mut host, mut sim) = ready_sdhc();
    let seen = sim.bus().writes.len();
    assert_eq!(host.switch_voltage::<Sim, NoDelay>(&mut sim, Voltage::V330), Ok(()));
    assert_eq!(sim.bus().writes.len(), seen);
    assert_eq!(host.switch_voltage::<Sim, NoDelay>(&mut sim, Voltage::V180), Ok(()));
    assert_eq!(host.voltage(), Voltage::V180);
    assert_eq!(sim.bus().ctrl2 & LOW_VOLTAGE, LOW_VOLTAGE);
}

#[test]
fn sd_card_that_takes_low_voltage_is_switched_during_identification() {
    let mut sim = Traced::new(Sim::new(Kind::Sdhc, 8_388_608));
    sim.bus_mut().offers_low_voltage = true;
    let mut host = EMmcHost::new(0);
    assert_eq!(host.init::<Sim, NoDelay>(&mut sim), Ok(()));
    assert_eq!(host.voltage(), Voltage::V180);
    assert!(host.card().supports_1v8);
    assert_eq!(host.timing(), TimingMode::Sdr104);
    assert!(host.tuned);
    assert!(sim.bus().commands.contains(&11));
}

#[test]
fn sd_card_has_no_eight_bit_bus() {
    let (mut host, mut sim) = ready_sdhc();
    let seen = sim.bus().writes.len();
    assert_eq!(
        host.set_bus_width::<Sim, NoDelay>(&mut sim, BusWidth::Eight),
        Err(SdError::BusWidth)
    );
    assert_eq!(sim.bus().writes.len(), seen);
    assert_eq!(host.bus_width(), BusWidth::Four);
    assert_eq!(host.set_bus_width::<Sim, NoDelay>(&mut sim, BusWidth::One), Ok(()));
    assert_eq!(host.bus_width(), BusWidth::One);
    assert_eq!(sim.bus().writes.last().unwrap().0, Reg::HostControl1);
}

#[test]
fn width_that_the_card_does_not_acknowledge_is_a_bus_width_error() {
    let (mut host, mut sim) = ready_sdhc();
    sim.bus_mut().status_bits = 1 << 22;
    let controls = sim.bus().count_writes(Reg::HostControl1);
    assert_eq!(
        host.set_bus_width::<Sim, NoDelay>(&mut sim, BusWidth::One),
        Err(SdError::BusWidth)
    );
    // the host register was left alone
    assert_eq!(sim.bus().count_writes(Reg::HostControl1), controls);
    assert_eq!(host.bus_width(), BusWidth::Four);
}

#[test]
fn clock_change_gates_the_clock_off_and_on() {
    let mut sim = Traced::new(Sim::new(Kind::Sdhc, 8_388_608));
    let mut host = EMmcHost::new(0);
    let cmd = Command::new(0, 0, ResponseType::NoResponse);
    // no command while the clock is off
    assert_eq!(host.execute::<Sim, NoDelay>(&mut sim, &cmd).unwrap_err(), SdError::InvalidArgument);
    assert!(sim.bus().writes.is_empty());
    assert_eq!(host.set_clock::<Sim, NoDelay>(&mut sim, 400_000), Ok(()));
    assert_eq!(host.divider, 250);
    assert_eq!(host.clock_hz, 400_000);
    let clock: Vec<u32> =
        sim.bus().writes.iter().filter(|(r, _)| *r == Reg::ClockControl).map(|(_, v)| *v).collect();
    assert_eq!(clock, vec![0, 0xFA01, 0xFA05]);
    assert_eq!(host.set_clock::<Sim, NoDelay>(&mut sim, 0), Err(SdError::InvalidArgument));
    assert_eq!(host.clock_hz, 400_000);
    assert!(host.execute::<Sim, NoDelay>(&mut sim, &cmd).is_ok());
}

#[test]
fn command_with_an_index_that_does_not_fit_is_refused() {
    let (host, mut sim) = ready_sdhc();
    let seen = sim.bus().writes.len();
    let cmd = Command::new(64, 0, ResponseType::R1);
    assert_eq!(host.execute::<Sim, NoDelay>(&mut sim, &cmd).unwrap_err(), SdError::InvalidArgument);
    assert_eq!(sim.bus().writes.len(), seen);
}

#[test]
fn argument_is_written_before_the_command() {
    let (host, mut sim) = ready_sdhc();
    sim.bus_mut().writes.clear();
    let cmd = Command::new(13, 0xAAAA_0000, ResponseType::R1);
    host.execute::<Sim, NoDelay>(&mut sim, &cmd).unwrap();
    assert_eq!(
        sim.bus().writes,
        vec![
            (Reg::IntStatus, 0xFFFF_FFFF),
            (Reg::Argument, 0xAAAA_0000),
            (Reg::Command, 0x0D1A_0000),
            (Reg::IntStatus, 0x0000_0001),
        ]
    );
}

#[test]
fn application_command_is_announced_first() {
    let (host, mut sim) = ready_sdhc();
    sim.bus_mut().commands.clear();
    let cmd = Command::app(6, 2, ResponseType::R1);
    host.execute::<Sim, NoDelay>(&mut sim, &cmd).unwrap();
    assert_eq!(sim.bus().commands, vec![55, 6]);
    let announce = sim.bus().writes.iter().find(|(r, v)| *r == Reg::Argument && *v == 0xAAAA_0000);
    assert!(announce.is_some());
}

#[test]
fn descriptor_words_round_trip_through_the_table() {
    let d = TransferDescriptor {
        address: 0x1_2345_6780,
        length: 65536,
        valid: true,
        end: true,
        interrupt: false,
    };
    assert_eq!(d.encode(), (0x0000_0023, 0x2345_6780, 0x0000_0001));
    let d = TransferDescriptor { address: 0x1000, length: 512, valid: true, end: false, interrupt: true };
    assert_eq!(d.encode(), (0x0200_0025, 0x1000, 0));
}

#[test]
fn block_that_never_comes_times_the_read_out() {
    let (host, mut sim) = ready_sdhc();
    sim.bus_mut().no_data = true;
    let mut buffer = vec![7u8; 512];
    assert_eq!(
        host.read_blocks::<Sim, NoDelay>(&mut sim, 0, 1, &mut buffer),
        Err(SdError::DataTimeout)
    );
    assert_eq!(buffer, vec![7u8; 512]);
    // the circuits were reset on the way out
    assert_eq!(sim.bus().writes[sim.bus().writes.len() - 2], (Reg::SoftwareReset, 0x06));
}

#[test]
fn fault_in_the_middle_of_a_read_is_classified() {
    for (bits, error) in [
        (0x0020_0000, SdError::DataCrc),
        (0x0040_0000, SdError::DataEndBit),
        (0x0010_0000, SdError::DataTimeout),
        (0x0100_0000, SdError::Acmd12Error),
        (0x0080_0000, SdError::BusPower),
        (0x0120_0000, SdError::DataCrc),
    ] {
        let (host, mut sim) = ready_sdhc();
        sim.bus_mut().fault_after_words = Some((128, bits));
        let mut buffer = vec![7u8; 1024];
        assert_eq!(host.read_blocks::<Sim, NoDelay>(&mut sim, 0, 2, &mut buffer), Err(error));
        assert_eq!(buffer, vec![7u8; 1024]);
    }
}

#[test]
fn card_that_stays_busy_times_the_command_out() {
    let (host, mut sim) = ready_sdhc();
    sim.bus_mut().hold_busy = true;
    let cmd = Command::new(7, 0xAAAA_0000, ResponseType::R1b);
    assert_eq!(host.execute::<Sim, NoDelay>(&mut sim, &cmd).unwrap_err(), SdError::DataTimeout);
}

#[test]
fn power_that_drops_faults_the_session_with_a_current_limit() {
    let mut sim = Traced::new(Sim::new(Kind::Sdhc, 8_388_608));
    sim.bus_mut().power_stuck = true;
    let mut host = EMmcHost::new(0);
    assert_eq!(host.init::<Sim, NoDelay>(&mut sim), Err(SdError::CurrentLimit));
    assert_eq!(host.state(), SessionState::Faulted(SdError::CurrentLimit));
    assert!(sim.bus().commands.is_empty());
}

#[test]
fn card_that_does_not_take_the_announcement_gives_a_command_error() {
    let (host, mut sim) = ready_sdhc();
    sim.bus_mut().forgets_announcement = true;
    sim.bus_mut().commands.clear();
    let cmd = Command::app(6, 2, ResponseType::R1);
    assert_eq!(host.execute::<Sim, NoDelay>(&mut sim, &cmd).unwrap_err(), SdError::CommandError);
    // the command itself was never issued
    assert_eq!(sim.bus().commands, vec![55]);
}

#[test]
fn card_that_reports_a_failed_switch_does_not_take_the_mode() {
    let mut sim = Traced::new(Sim::new(Kind::Emmc, 30_535_680));
    let mut host = EMmcHost::new(0);
    assert_eq!(host.init::<Sim, NoDelay>(&mut sim), Ok(()));
    sim.bus_mut().fails_switch = true;
    assert_eq!(
        host.switch_card::<Sim, NoDelay>(&mut sim, TimingMode::HighSpeed),
        Err(SdError::CommandError)
    );
    let (host, mut sim) = ready_sdhc();
    assert_eq!(host.switch_card::<Sim, NoDelay>(&mut sim, TimingMode::HighSpeed), Ok(()));
    sim.bus_mut().fails_switch = true;
    assert_eq!(
        host.switch_card::<Sim, NoDelay>(&mut sim, TimingMode::HighSpeed),
        Err(SdError::CommandError)
    );
    // with every switch failing, the session still comes up, in the legacy mode
    let mut sim = Traced::new(Sim::new(Kind::Sdhc, 8_388_608));
    sim.bus_mut().fails_switch = true;
    let mut host = EMmcHost::new(0);
    assert_eq!(host.init::<Sim, NoDelay>(&mut sim), Ok(()));
    assert_eq!(host.timing(), TimingMode::Legacy);
    assert_eq!(host.clock_hz, 25_000_000);
}

#[test]
fn mode_setup_programs_the_host_after_the_card() {
    let (mut host, mut sim) = ready_sdhc();
    sim.bus_mut().writes.clear();
    sim.bus_mut().commands.clear();
    assert_eq!(host.apply_mode::<Sim, NoDelay>(&mut sim, TimingMode::HighSpeed), Ok(()));
    assert_eq!(sim.bus().commands, vec![6]);
    let command = sim.bus().writes.iter().position(|(r, _)| *r == Reg::Command).unwrap();
    let control = sim.bus().writes.iter().position(|(r, _)| *r == Reg::HostControl1).unwrap();
    let clock = sim.bus().writes.iter().position(|(r, _)| *r == Reg::ClockControl).unwrap();
    assert!(command < control && control < clock);
    assert_eq!(sim.bus().writes[control], (Reg::HostControl1, 0x06));
    assert_eq!(sim.bus().writes[control + 1], (Reg::HostControl2, 0x01));
    assert_eq!(host.clock_hz, 50_000_000);
    // the mode is recorded by the session, not by the setup
    assert_eq!(host.timing(), TimingMode::HighSpeed);
    let mut fresh = EMmcHost::new(0);
    let seen = sim.bus().writes.len();
    assert_eq!(
        fresh.apply_mode::<Sim, NoDelay>(&mut sim, TimingMode::HighSpeed),
        Err(SdError::InvalidArgument)
    );
    assert_eq!(sim.bus().writes.len(), seen);
}

#[test]
fn requests_of_the_session_are_done_on_the_bus() {
    let (mut host, mut sim) = ready_sdhc();
    let seen = sim.bus().writes.len();
    assert_eq!(host.perform::<Sim, NoDelay>(&mut sim, &Request::Nothing), Outcome::Done);
    assert_eq!(sim.bus().writes.len(), seen);
    let status = Command::new(13, 0xAAAA_0000, ResponseType::R1);
    let o = host.perform::<Sim, NoDelay>(&mut sim, &Request::Command(status));
    assert!(matches!(o, Outcome::Response(r) if r.card_status() == Ok(0x900)));
    // an SD card has no extended register: it answers the command, but no data comes
    let o = host.perform::<Sim, NoDelay>(&mut sim, &Request::ReadExtCsd);
    assert_eq!(o, Outcome::Failed(SdError::DataTimeout));
    let o = host.perform::<Sim, NoDelay>(&mut sim, &Request::Width(BusWidth::Eight));
    assert_eq!(o, Outcome::Failed(SdError::BusWidth));
    let o = host.perform::<Sim, NoDelay>(&mut sim, &Request::Voltage(Voltage::V180));
    assert_eq!(o, Outcome::Done);
    // the session records, not the request
    assert_eq!(host.voltage(), Voltage::V330);
    let o = host.perform::<Sim, NoDelay>(&mut sim, &Request::PowerUp);
    assert_eq!(o, Outcome::Done);
    assert_eq!(host.clock_hz, 400_000);
}

#[test]
fn extended_register_of_an_emmc_is_read_in_one_block() {
    let mut sim = Traced::new(Sim::new(Kind::Emmc, 30_535_680));
    let mut host = EMmcHost::new(0);
    assert_eq!(host.init::<Sim, NoDelay>(&mut sim), Ok(()));
    let o = host.perform::<Sim, NoDelay>(&mut sim, &Request::ReadExtCsd);
    assert!(matches!(o, Outcome::ExtCsd(x) if x.sectors == 30_535_680 && x.device_type == 0x57));
}
