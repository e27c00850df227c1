use pdp5_emulator::memory::Memory;
use pdp5_emulator::unsigned_integer_12::u12;

fn expected(words: &[u16; 4096]) -> String {
    let mut text = String::from("Memory:");
    for (row, chunk) in words.chunks(32).enumerate() {
        text.push_str(&format!("\nAddress: {:#03x}, Data: ", row * 32));
        for word in chunk {
            text.push_str(&format!("{:03x} ", word));
        }
    }
    text.push('\n');
    text
}

#[test]
fn dump_of_cleared_memory() {
    let mem = Memory::default([0.into(); 4096]);
    let text = mem.hex_dump();
    assert_eq!(text, expected(&[0; 4096]));
    assert!(text.starts_with("Memory:\nAddress: 0x0, Data: 000 000 "));
    assert!(text.ends_with("000 \n"));
    assert_eq!(text.lines().count(), 129);
    assert_eq!(text.lines().nth(2).map(|line| &line[..21]), Some("Address: 0x20, Data: "));
    assert_eq!(text.lines().nth(128).map(|line| &line[..22]), Some("Address: 0xfe0, Data: "));
}

#[test]
fn dump_shows_each_word_as_three_digits() {
    let mut words: [u16; 4096] = [0; 4096];
    for (i, word) in words.iter_mut().enumerate() {
        *word = ((i * 2731 + 5) % 4096) as u16;
    }
    words[0] = 0xfff;
    words[1] = 0x00a;
    words[33] = 0xabc;
    let mut mem = Memory::default([0.into(); 4096]);
    for (i, word) in words.iter().enumerate() {
        mem.set(u12::from(i), u12::from(*word));
    }
    let text = mem.hex_dump();
    assert_eq!(text, expected(&words));
    assert!(text.starts_with("Memory:\nAddress: 0x0, Data: fff 00a "));
    assert!(text.contains("\nAddress: 0x20, Data: "));
    let second = text.lines().nth(2).unwrap();
    assert_eq!(&second[21..28], &format!("{:03x} abc", words[32]));
}
