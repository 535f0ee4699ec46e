//! The register snapshot of the radio.
//!
//! The driver hands the control registers out as forty-seven bytes, one per
//! register, in the order of the register map and without padding.
use vstd::prelude::*;

verus! {

/// The number of control registers in a snapshot.
pub const REGISTER_COUNT: usize = 47;

/// CC1101 register values
#[allow(non_snake_case)]
#[derive(Debug, Copy, Clone, PartialEq, Eq, Structural)]
pub struct Registers {
    /// GDO2 Output Pin Configuration
    pub IOCFG2: u8,
    /// GDO1 Output Pin Configuration
    pub IOCFG1: u8,
    /// GDO0 Output Pin Configuration
    pub IOCFG0: u8,
    /// RX FIFO and TX FIFO Thresholds
    pub FIFOTHR: u8,
    /// Sync Word, High Byte
    pub SYNC1: u8,
    /// Sync Word, Low Byte
    pub SYNC0: u8,
    /// Packet Length
    pub PKTLEN: u8,
    /// Packet Automation Control
    pub PKTCTRL1: u8,
    /// Packet Automation Control
    pub PKTCTRL0: u8,
    /// Device Address
    pub ADDR: u8,
    /// Channel Number
    pub CHANNR: u8,
    /// Frequency Synthesizer Control
    pub FSCTRL1: u8,
    /// Frequency Synthesizer Control
    pub FSCTRL0: u8,
    /// Frequency Control Word, High Byte
    pub FREQ2: u8,
    /// Frequency Control Word, Middle Byte
    pub FREQ1: u8,
    /// Frequency Control Word, Low Byte
    pub FREQ0: u8,
    /// Modem Configuration
    pub MDMCFG4: u8,
    /// Modem Configuration
    pub MDMCFG3: u8,
    /// Modem Configuration
    pub MDMCFG2: u8,
    /// Modem Configuration
    pub MDMCFG1: u8,
    /// Modem Configuration
    pub MDMCFG0: u8,
    /// Modem Deviation Setting
    pub DEVIATN: u8,
    /// Main Radio Control State Machine Configuration
    pub MCSM2: u8,
    /// Main Radio Control State Machine Configuration
    pub MCSM1: u8,
    /// Main Radio Control State Machine Configuration
    pub MCSM0: u8,
    /// Frequency Offset Compensation Configuration
    pub FOCCFG: u8,
    /// Bit Synchronization Configuration
    pub BSCFG: u8,
    /// AGC Control
    pub AGCCTRL2: u8,
    /// AGC Control
    pub AGCCTRL1: u8,
    /// AGC Control
    pub AGCCTRL0: u8,
    /// High Byte Event0 Timeout
    pub WOREVT1: u8,
    /// Low Byte Event0 Timeout
    pub WOREVT0: u8,
    /// Wake On Radio Control
    pub WORCTRL: u8,
    /// Front End RX Configuration
    pub FREND1: u8,
    /// Front End TX Configuration
    pub FREND0: u8,
    /// Frequency Synthesizer Calibration
    pub FSCAL3: u8,
    /// Frequency Synthesizer Calibration
    pub FSCAL2: u8,
    /// Frequency Synthesizer Calibration
    pub FSCAL1: u8,
    /// Frequency Synthesizer Calibration
    pub FSCAL0: u8,
    /// RC Oscillator Configuration
    pub RCCTRL1: u8,
    /// RC Oscillator Configuration
    pub RCCTRL0: u8,
    /// Frequency Synthesizer Calibration Control
    pub FSTEST: u8,
    /// Production Test
    pub PTEST: u8,
    /// AGC Test
    pub AGCTEST: u8,
    /// Various Test Settings
    pub TEST2: u8,
    /// Various Test Settings
    pub TEST1: u8,
    /// Various Test Settings
    pub TEST0: u8,
}

impl View for Registers {
    type V = Seq<u8>;

    /// The registers as bytes, in the order of the register map.
    open spec fn view(&self) -> Seq<u8> {
        seq![
            self.IOCFG2,
            self.IOCFG1,
            self.IOCFG0,
            self.FIFOTHR,
            self.SYNC1,
            self.SYNC0,
            self.PKTLEN,
            self.PKTCTRL1,
            self.PKTCTRL0,
            self.ADDR,
            self.CHANNR,
            self.FSCTRL1,
            self.FSCTRL0,
            self.FREQ2,
            self.FREQ1,
            self.FREQ0,
            self.MDMCFG4,
            self.MDMCFG3,
            self.MDMCFG2,
            self.MDMCFG1,
            self.MDMCFG0,
            self.DEVIATN,
            self.MCSM2,
            self.MCSM1,
            self.MCSM0,
            self.FOCCFG,
            self.BSCFG,
            self.AGCCTRL2,
            self.AGCCTRL1,
            self.AGCCTRL0,
            self.WOREVT1,
            self.WOREVT0,
            self.WORCTRL,
            self.FREND1,
            self.FREND0,
            self.FSCAL3,
            self.FSCAL2,
            self.FSCAL1,
            self.FSCAL0,
            self.RCCTRL1,
            self.RCCTRL0,
            self.FSTEST,
            self.PTEST,
            self.AGCTEST,
            self.TEST2,
            self.TEST1,
            self.TEST0,
        ]
    }
}

impl Default for Registers {
    /// All registers zero.
    fn default() -> (r: Registers)
        ensures
            r@ == Seq::new(47, |i: int| 0u8),
    {
        let r = Registers {
            IOCFG2: 0,
            IOCFG1: 0,
            IOCFG0: 0,
            FIFOTHR: 0,
            SYNC1: 0,
            SYNC0: 0,
            PKTLEN: 0,
            PKTCTRL1: 0,
            PKTCTRL0: 0,
            ADDR: 0,
            CHANNR: 0,
            FSCTRL1: 0,
            FSCTRL0: 0,
            FREQ2: 0,
            FREQ1: 0,
            FREQ0: 0,
            MDMCFG4: 0,
            MDMCFG3: 0,
            MDMCFG2: 0,
            MDMCFG1: 0,
            MDMCFG0: 0,
            DEVIATN: 0,
            MCSM2: 0,
            MCSM1: 0,
            MCSM0: 0,
            FOCCFG: 0,
            BSCFG: 0,
            AGCCTRL2: 0,
            AGCCTRL1: 0,
            AGCCTRL0: 0,
            WOREVT1: 0,
            WOREVT0: 0,
            WORCTRL: 0,
            FREND1: 0,
            FREND0: 0,
            FSCAL3: 0,
            FSCAL2: 0,
            FSCAL1: 0,
            FSCAL0: 0,
            RCCTRL1: 0,
            RCCTRL0: 0,
            FSTEST: 0,
            PTEST: 0,
            AGCTEST: 0,
            TEST2: 0,
            TEST1: 0,
            TEST0: 0,
        };
        assert(r@ =~= Seq::new(47, |i: int| 0u8));
        r
    }
}

impl Registers {
    /// The snapshot that the bytes hold, if they are forty-seven.
    pub fn from_bytes(bytes: &[u8]) -> (r: Option<Registers>)
        ensures
            bytes@.len() == 47 ==> r is Some && r->0@ == bytes@,
            bytes@.len() != 47 ==> r is None,
    {
        if bytes.len() != REGISTER_COUNT {
            return None;
        }
        let r = Registers {
            IOCFG2: bytes[0],
            IOCFG1: bytes[1],
            IOCFG0: bytes[2],
            FIFOTHR: bytes[3],
            SYNC1: bytes[4],
            SYNC0: bytes[5],
            PKTLEN: bytes[6],
            PKTCTRL1: bytes[7],
            PKTCTRL0: bytes[8],
            ADDR: bytes[9],
            CHANNR: bytes[10],
            FSCTRL1: bytes[11],
            FSCTRL0: bytes[12],
            FREQ2: bytes[13],
            FREQ1: bytes[14],
            FREQ0: bytes[15],
            MDMCFG4: bytes[16],
            MDMCFG3: bytes[17],
            MDMCFG2: bytes[18],
            MDMCFG1: bytes[19],
            MDMCFG0: bytes[20],
            DEVIATN: bytes[21],
            MCSM2: bytes[22],
            MCSM1: bytes[23],
            MCSM0: bytes[24],
            FOCCFG: bytes[25],
            BSCFG: bytes[26],
            AGCCTRL2: bytes[27],
            AGCCTRL1: bytes[28],
            AGCCTRL0: bytes[29],
            WOREVT1: bytes[30],
            WOREVT0: bytes[31],
            WORCTRL: bytes[32],
            FREND1: bytes[33],
            FREND0: bytes[34],
            FSCAL3: bytes[35],
            FSCAL2: bytes[36],
            FSCAL1: bytes[37],
            FSCAL0: bytes[38],
            RCCTRL1: bytes[39],
            RCCTRL0: bytes[40],
            FSTEST: bytes[41],
            PTEST: bytes[42],
            AGCTEST: bytes[43],
            TEST2: bytes[44],
            TEST1: bytes[45],
            TEST0: bytes[46],
        };
        assert(r@ =~= bytes@);
        Some(r)
    }

    /// The bytes of the snapshot, in the order of the register map.
    pub fn to_bytes(&self) -> (r: Vec<u8>)
        ensures
            r@ == self@,
    {
        let mut r: Vec<u8> = Vec::new();
        r.push(self.IOCFG2);
        r.push(self.IOCFG1);
        r.push(self.IOCFG0);
        r.push(self.FIFOTHR);
        r.push(self.SYNC1);
        r.push(self.SYNC0);
        r.push(self.PKTLEN);
        r.push(self.PKTCTRL1);
        r.push(self.PKTCTRL0);
        r.push(self.ADDR);
        r.push(self.CHANNR);
        r.push(self.FSCTRL1);
        r.push(self.FSCTRL0);
        r.push(self.FREQ2);
        r.push(self.FREQ1);
        r.push(self.FREQ0);
        r.push(self.MDMCFG4);
        r.push(self.MDMCFG3);
        r.push(self.MDMCFG2);
        r.push(self.MDMCFG1);
        r.push(self.MDMCFG0);
        r.push(self.DEVIATN);
        r.push(self.MCSM2);
        r.push(self.MCSM1);
        r.push(self.MCSM0);
        r.push(self.FOCCFG);
        r.push(self.BSCFG);
        r.push(self.AGCCTRL2);
        r.push(self.AGCCTRL1);
        r.push(self.AGCCTRL0);
        r.push(self.WOREVT1);
        r.push(self.WOREVT0);
        r.push(self.WORCTRL);
        r.push(self.FREND1);
        r.push(self.FREND0);
        r.push(self.FSCAL3);
        r.push(self.FSCAL2);
        r.push(self.FSCAL1);
        r.push(self.FSCAL0);
        r.push(self.RCCTRL1);
        r.push(self.RCCTRL0);
        r.push(self.FSTEST);
        r.push(self.PTEST);
        r.push(self.AGCTEST);
        r.push(self.TEST2);
        r.push(self.TEST1);
        r.push(self.TEST0);
        assert(r@ =~= self@);
        r
    }
}

} // verus!
