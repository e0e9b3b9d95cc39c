use embedded_hal::spi::{ErrorKind, ErrorType, Operation, SpiDevice};
use max7219::{DecodeMode, Error, Max7219, Register, MAX_DISPLAYS};

/// Records every frame written; fails every transaction once `fail_from`
/// frames have gone out.
struct Recorder {
    frames: Vec<Vec<u8>>,
    fail_from: usize,
}

impl Recorder {
    fn new() -> Self {
        Recorder { frames: Vec::new(), fail_from: usize::MAX }
    }

    fn failing_after(n: usize) -> Self {
        Recorder { frames: Vec::new(), fail_from: n }
    }
}

impl ErrorType for Recorder {
    type Error = ErrorKind;
}

impl SpiDevice for Recorder {
    fn transaction(&mut self, operations: &mut [Operation<'_, u8>]) -> Result<(), ErrorKind> {
        for op in operations.iter() {
            if let Operation::Write(buf) = op {
                self.frames.push(buf.to_vec());
            }
        }
        if self.frames.len() > self.fail_from {
            Err(ErrorKind::Other)
        } else {
            Ok(())
        }
    }
}

fn chain(spi: &mut Recorder, n: usize) -> Max7219<&mut Recorder> {
    Max7219::new(spi).with_device_count(n).expect("valid count")
}

#[test]
fn register_addresses() {
    assert_eq!(Register::NoOp.addr(), 0x00);
    assert_eq!(Register::DecodeMode.addr(), 0x09);
    assert_eq!(Register::Intensity.addr(), 0x0A);
    assert_eq!(Register::ScanLimit.addr(), 0x0B);
    assert_eq!(Register::Shutdown.addr(), 0x0C);
    assert_eq!(Register::DisplayTest.addr(), 0x0F);
    let addrs: Vec<u8> = Register::digits().iter().map(|r| r.addr()).collect();
    assert_eq!(addrs, vec![1, 2, 3, 4, 5, 6, 7, 8]);
}

#[test]
fn try_digit_bounds() {
    assert_eq!(Register::try_digit(0), Ok(Register::Digit0));
    assert_eq!(Register::try_digit(5), Ok(Register::Digit5));
    assert_eq!(Register::try_digit(7), Ok(Register::Digit7));
    assert_eq!(Register::try_digit(8), Err(Error::InvalidDigit));
    assert_eq!(Register::try_digit(255), Err(Error::InvalidDigit));
}

#[test]
fn decode_mode_values() {
    assert_eq!(DecodeMode::NoDecode.value(), 0x00);
    assert_eq!(DecodeMode::Digit0.value(), 0x01);
    assert_eq!(DecodeMode::Digits0To3.value(), 0x0F);
    assert_eq!(DecodeMode::AllDigits.value(), 0xFF);
}

#[test]
fn device_count_zero_refused() {
    let mut spi = Recorder::new();
    let result = Max7219::new(&mut spi).with_device_count(0);
    assert!(matches!(result, Err(Error::InvalidDeviceCount)));
}

#[test]
fn device_count_max_accepted() {
    let mut spi = Recorder::new();
    let driver = chain(&mut spi, MAX_DISPLAYS);
    assert_eq!(driver.device_count(), MAX_DISPLAYS);
}

#[test]
fn single_write_on_longest_chain() {
    let mut spi = Recorder::new();
    let mut driver = chain(&mut spi, MAX_DISPLAYS);
    driver.write_device_register(7, Register::Intensity, 0x03).unwrap();
    driver.write_device_register(0, Register::Digit0, 0xAA).unwrap();
    assert_eq!(driver.write_device_register(8, Register::Digit0, 1), Err(Error::InvalidDeviceIndex));
    let mut last = vec![0u8; 16];
    last[14] = 0x0A;
    last[15] = 0x03;
    let mut first = vec![0u8; 16];
    first[0] = 0x01;
    first[1] = 0xAA;
    assert_eq!(spi.frames, vec![last, first]);
}

#[test]
fn scan_limit_bounds() {
    let mut spi = Recorder::new();
    let mut driver = chain(&mut spi, 2);
    driver.set_device_scan_limit(1, 1).unwrap();
    driver.set_device_scan_limit(0, 8).unwrap();
    driver.set_scan_limit_all(1).unwrap();
    driver.set_scan_limit_all(8).unwrap();
    assert_eq!(driver.set_scan_limit_all(0), Err(Error::InvalidScanLimit));
    assert_eq!(driver.set_device_scan_limit(0, 9), Err(Error::InvalidScanLimit));
    assert_eq!(
        spi.frames,
        vec![
            vec![0, 0, 0x0B, 0],
            vec![0x0B, 7, 0, 0],
            vec![0x0B, 0, 0x0B, 0],
            vec![0x0B, 7, 0x0B, 7],
        ]
    );
}

#[test]
fn intensity_bounds() {
    let mut spi = Recorder::new();
    let mut driver = chain(&mut spi, 1);
    driver.set_intensity(0, 0).unwrap();
    driver.set_intensity(0, 15).unwrap();
    driver.set_intensity_all(15).unwrap();
    assert_eq!(driver.set_intensity(0, 16), Err(Error::InvalidIntensity));
    assert_eq!(driver.set_intensity_all(16), Err(Error::InvalidIntensity));
    assert_eq!(spi.frames, vec![vec![0x0A, 0], vec![0x0A, 15], vec![0x0A, 15]]);
}

#[test]
fn digit_bounds() {
    let mut spi = Recorder::new();
    let mut driver = chain(&mut spi, 1);
    driver.write_raw_digit(0, 0, 0x30).unwrap();
    driver.write_raw_digit(0, 7, 0x81).unwrap();
    assert_eq!(driver.write_raw_digit(0, 8, 0x00), Err(Error::InvalidDigit));
    // the digit is checked before the device index
    assert_eq!(driver.write_raw_digit(3, 8, 0x00), Err(Error::InvalidDigit));
    assert_eq!(driver.write_raw_digit(3, 2, 0x00), Err(Error::InvalidDeviceIndex));
    assert_eq!(spi.frames, vec![vec![0x01, 0x30], vec![0x08, 0x81]]);
}

#[test]
fn clear_one_device_in_chain() {
    let mut spi = Recorder::new();
    let mut driver = chain(&mut spi, 3);
    driver.clear_display(1).unwrap();
    let expected: Vec<Vec<u8>> = (1..=8u8).map(|a| vec![0, 0, a, 0, 0, 0]).collect();
    assert_eq!(spi.frames, expected);
}

#[test]
fn clear_all_devices() {
    let mut spi = Recorder::new();
    let mut driver = chain(&mut spi, 2);
    driver.clear_all().unwrap();
    let expected: Vec<Vec<u8>> = (1..=8u8).map(|a| vec![a, 0, a, 0]).collect();
    assert_eq!(spi.frames, expected);
}

#[test]
fn broadcast_repeated_frames_identical() {
    let mut spi = Recorder::new();
    let mut driver = chain(&mut spi, 3);
    driver.set_intensity_all(9).unwrap();
    driver.set_intensity_all(9).unwrap();
    driver.set_decode_mode_all(DecodeMode::Digit0).unwrap();
    driver.set_decode_mode_all(DecodeMode::Digit0).unwrap();
    driver.clear_all().unwrap();
    driver.clear_all().unwrap();
    let f = &spi.frames;
    assert_eq!(f.len(), 20);
    assert_eq!(f[0], vec![0x0A, 9, 0x0A, 9, 0x0A, 9]);
    assert_eq!(f[0], f[1]);
    assert_eq!(f[2], vec![0x09, 1, 0x09, 1, 0x09, 1]);
    assert_eq!(f[2], f[3]);
    assert_eq!(f[4..12], f[12..20]);
}

#[test]
fn init_on_two_devices() {
    let mut spi = Recorder::new();
    let mut driver = chain(&mut spi, 2);
    driver.init().unwrap();
    let mut expected = vec![
        vec![0x0C, 1, 0x0C, 1],
        vec![0x0F, 0, 0x0F, 0],
        vec![0x0B, 7, 0x0B, 7],
        vec![0x09, 0, 0x09, 0],
    ];
    expected.extend((1..=8u8).map(|a| vec![a, 0, a, 0]));
    assert_eq!(spi.frames, expected);
}

#[test]
fn transport_failure_reported() {
    let mut spi = Recorder::failing_after(0);
    let mut driver = Max7219::new(&mut spi);
    assert_eq!(driver.power_on(), Err(Error::SpiError(ErrorKind::Other)));
    assert_eq!(driver.power_off_device(0), Err(Error::SpiError(ErrorKind::Other)));
    assert_eq!(spi.frames, vec![vec![0x0C, 1], vec![0x0C, 0]]);
}

#[test]
fn clear_stops_at_first_failure() {
    let mut spi = Recorder::failing_after(2);
    let mut driver = Max7219::new(&mut spi);
    assert_eq!(driver.clear_display(0), Err(Error::SpiError(ErrorKind::Other)));
    assert_eq!(spi.frames, vec![vec![1, 0], vec![2, 0], vec![3, 0]]);
}

#[test]
fn init_stops_at_first_failure() {
    let mut spi = Recorder::failing_after(1);
    let mut driver = Max7219::new(&mut spi);
    assert_eq!(driver.init(), Err(Error::SpiError(ErrorKind::Other)));
    assert_eq!(spi.frames, vec![vec![0x0C, 1], vec![0x0F, 0]]);
}

#[test]
fn power_off_single_device_frame() {
    let mut spi = Recorder::new();
    let mut driver = chain(&mut spi, 4);
    driver.power_off_device(2).unwrap();
    driver.power_on_device(3).unwrap();
    driver.test_device(0, true).unwrap();
    assert_eq!(
        spi.frames,
        vec![
            vec![0, 0, 0, 0, 0x0C, 0, 0, 0],
            vec![0, 0, 0, 0, 0, 0, 0x0C, 1],
            vec![0x0F, 1, 0, 0, 0, 0, 0, 0],
        ]
    );
}
