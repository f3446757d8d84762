use gigabyte_kbd_backlight::number::{
    parse_hex_digit, parse_hex_pair, parse_i8, parse_u8, push_hex_byte, push_i8, push_u8,
};

fn chars(s: &str) -> Vec<char> {
    s.chars().collect()
}

#[test]
fn parse_u8_examples() {
    assert_eq!(parse_u8(&chars("0")), Some(0));
    assert_eq!(parse_u8(&chars("7")), Some(7));
    assert_eq!(parse_u8(&chars("255")), Some(255));
    assert_eq!(parse_u8(&chars("+12")), Some(12));
    assert_eq!(parse_u8(&chars("007")), Some(7));
    assert_eq!(parse_u8(&chars("0000000000000000000000255")), Some(255));
    assert_eq!(parse_u8(&chars("256")), None);
    assert_eq!(parse_u8(&chars("99999999999999999999999999")), None);
    assert_eq!(parse_u8(&chars("")), None);
    assert_eq!(parse_u8(&chars("+")), None);
    assert_eq!(parse_u8(&chars("-1")), None);
    assert_eq!(parse_u8(&chars("-0")), None);
    assert_eq!(parse_u8(&chars("1 ")), None);
    assert_eq!(parse_u8(&chars(" 1")), None);
    assert_eq!(parse_u8(&chars("1a")), None);
    assert_eq!(parse_u8(&chars("++1")), None);
    assert_eq!(parse_u8(&chars("\u{0661}")), None);
}

#[test]
fn parse_i8_examples() {
    assert_eq!(parse_i8(&chars("0")), Some(0));
    assert_eq!(parse_i8(&chars("-0")), Some(0));
    assert_eq!(parse_i8(&chars("+3")), Some(3));
    assert_eq!(parse_i8(&chars("-3")), Some(-3));
    assert_eq!(parse_i8(&chars("127")), Some(127));
    assert_eq!(parse_i8(&chars("-128")), Some(-128));
    assert_eq!(parse_i8(&chars("128")), None);
    assert_eq!(parse_i8(&chars("-129")), None);
    assert_eq!(parse_i8(&chars("")), None);
    assert_eq!(parse_i8(&chars("-")), None);
    assert_eq!(parse_i8(&chars("+")), None);
    assert_eq!(parse_i8(&chars("+-3")), None);
    assert_eq!(parse_i8(&chars("--3")), None);
    assert_eq!(parse_i8(&chars("3-")), None);
    assert_eq!(parse_i8(&chars("x")), None);
}

#[test]
fn parse_decimal_reads_what_std_reads() {
    let alphabet = ['0', '1', '2', '5', '8', '9', '+', '-', ' ', 'a'];
    let mut counter: u32 = 0;
    while counter < 10 * 10 * 10 * 10 {
        let mut length: usize = 0;
        while length <= 4 {
            let mut rest = counter;
            let mut text = String::new();
            while text.chars().count() < length {
                text.push(alphabet[(rest % 10) as usize]);
                rest /= 10;
            }
            assert_eq!(parse_u8(&chars(&text)), text.parse::<u8>().ok(), "{:?}", text);
            assert_eq!(parse_i8(&chars(&text)), text.parse::<i8>().ok(), "{:?}", text);
            length += 1;
        }
        counter += 1;
    }
}

#[test]
fn push_u8_writes_every_byte_as_std_does() {
    let mut v: u16 = 0;
    while v <= 255 {
        let mut out = String::from("<");
        push_u8(&mut out, v as u8);
        assert_eq!(out, format!("<{}", v));
        assert_eq!(parse_u8(&chars(&out[1..])), Some(v as u8));
        v += 1;
    }
}

#[test]
fn push_i8_writes_every_byte_as_std_does() {
    let mut v: i16 = -128;
    while v <= 127 {
        let mut out = String::from("<");
        push_i8(&mut out, v as i8);
        assert_eq!(out, format!("<{}", v));
        assert_eq!(parse_i8(&chars(&out[1..])), Some(v as i8));
        v += 1;
    }
}

#[test]
fn push_decimal_exact_values() {
    let mut out = String::new();
    push_u8(&mut out, 0);
    push_u8(&mut out, 9);
    push_u8(&mut out, 10);
    push_u8(&mut out, 100);
    push_u8(&mut out, 255);
    assert_eq!(out, "0910100255");
    let mut signed = String::new();
    push_i8(&mut signed, -128);
    push_i8(&mut signed, -1);
    push_i8(&mut signed, 0);
    push_i8(&mut signed, 127);
    assert_eq!(signed, "-128-10127");
}

#[test]
fn push_hex_byte_writes_two_upper_case_digits() {
    let mut v: u16 = 0;
    while v <= 255 {
        let mut out = String::from("#");
        push_hex_byte(&mut out, v as u8);
        assert_eq!(out, format!("#{:02X}", v));
        let digits: Vec<char> = out.chars().collect();
        assert_eq!(parse_hex_pair(digits[1], digits[2]), Some(v as u8));
        v += 1;
    }
}

#[test]
fn parse_hex_digit_examples() {
    assert_eq!(parse_hex_digit('0'), Some(0));
    assert_eq!(parse_hex_digit('9'), Some(9));
    assert_eq!(parse_hex_digit('a'), Some(10));
    assert_eq!(parse_hex_digit('f'), Some(15));
    assert_eq!(parse_hex_digit('A'), Some(10));
    assert_eq!(parse_hex_digit('F'), Some(15));
    assert_eq!(parse_hex_digit('g'), None);
    assert_eq!(parse_hex_digit('G'), None);
    assert_eq!(parse_hex_digit('/'), None);
    assert_eq!(parse_hex_digit(':'), None);
    assert_eq!(parse_hex_digit('@'), None);
    assert_eq!(parse_hex_digit('`'), None);
    assert_eq!(parse_hex_digit('+'), None);
    assert_eq!(parse_hex_digit(' '), None);
}

#[test]
fn parse_hex_digit_is_what_std_reads() {
    let mut code: u32 = 0;
    while code < 0x3000 {
        if let Some(c) = char::from_u32(code) {
            assert_eq!(parse_hex_digit(c), c.to_digit(16).map(|d| d as u8), "U+{:04X}", code);
        }
        code += 1;
    }
}

#[test]
fn parse_hex_pair_examples() {
    assert_eq!(parse_hex_pair('F', 'F'), Some(255));
    assert_eq!(parse_hex_pair('0', '0'), Some(0));
    assert_eq!(parse_hex_pair('a', 'A'), Some(170));
    assert_eq!(parse_hex_pair('1', '0'), Some(16));
    assert_eq!(parse_hex_pair('0', '1'), Some(1));
    assert_eq!(parse_hex_pair('z', '0'), None);
    assert_eq!(parse_hex_pair('0', 'z'), None);
    assert_eq!(parse_hex_pair('+', 'F'), None);
}
