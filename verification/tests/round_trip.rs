use unaligned_codec::UnalignedSlice;

#[test]
fn decoding_the_encoded_words_gives_them_back() {
    let words: Vec<[u8; 4]> = vec![[0, 0, 0, 0], [0xFF, 0xFE, 0xFD, 0xFC], [1, 0, 0, 0], [0, 0, 0, 1]];
    let bytes = UnalignedSlice::<[u8; 4]>::bytes_encode(&words).unwrap();
    let back = UnalignedSlice::<[u8; 4]>::bytes_decode(&bytes).unwrap();
    assert_eq!(back, &words[..]);
    assert_eq!(back.as_ptr() as usize, words.as_ptr() as usize);
}

#[test]
fn decoding_the_encoded_signed_bytes_gives_them_back() {
    let signed: Vec<i8> = (-128i16..128).map(|v| v as i8).collect();
    let bytes = UnalignedSlice::<i8>::bytes_encode(&signed).unwrap();
    let back = UnalignedSlice::<i8>::bytes_decode(&bytes).unwrap();
    assert_eq!(back, &signed[..]);
}

#[test]
fn decoding_the_encoded_pairs_and_longs_gives_them_back() {
    let pairs: Vec<[u8; 2]> = (0u8..50).map(|v| [v, 255 - v]).collect();
    let bytes = UnalignedSlice::<[u8; 2]>::bytes_encode(&pairs).unwrap();
    assert_eq!(UnalignedSlice::<[u8; 2]>::bytes_decode(&bytes), Some(&pairs[..]));

    let longs: Vec<[u8; 8]> = (0u8..9).map(|v| [v, 1, 2, 3, 4, 5, 6, 7]).collect();
    let bytes = UnalignedSlice::<[u8; 8]>::bytes_encode(&longs).unwrap();
    assert_eq!(UnalignedSlice::<[u8; 8]>::bytes_decode(&bytes), Some(&longs[..]));
}

#[test]
fn encoding_the_decoded_words_reproduces_the_buffer() {
    let buffer: [u8; 12] = [1, 2, 3, 4, 5, 6, 7, 8, 9, 10, 11, 12];
    let words = UnalignedSlice::<[u8; 4]>::bytes_decode(&buffer).unwrap();
    let bytes = UnalignedSlice::<[u8; 4]>::bytes_encode(words).unwrap();
    assert_eq!(&*bytes, &buffer[..]);
}

#[test]
fn encoding_the_decoded_bytes_reproduces_every_buffer() {
    let buffer: Vec<u8> = (0u8..=255).collect();
    for len in [0usize, 1, 8, 16, 64, 256] {
        let part = &buffer[..len];
        let longs = UnalignedSlice::<[u8; 8]>::bytes_decode(part);
        if len % 8 == 0 {
            let bytes = UnalignedSlice::<[u8; 8]>::bytes_encode(longs.unwrap()).unwrap();
            assert_eq!(&*bytes, part);
        } else {
            assert!(longs.is_none());
        }
    }
}

#[test]
fn one_buffer_read_at_two_widths_holds_the_same_bytes() {
    let buffer: [u8; 8] = [1, 2, 3, 4, 5, 6, 7, 8];
    let pairs = UnalignedSlice::<[u8; 2]>::bytes_decode(&buffer).unwrap();
    let words = UnalignedSlice::<[u8; 4]>::bytes_decode(&buffer).unwrap();
    assert_eq!(pairs.len(), 4);
    assert_eq!(words.len(), 2);
    assert_eq!(
        UnalignedSlice::<[u8; 2]>::bytes_encode(pairs).unwrap(),
        UnalignedSlice::<[u8; 4]>::bytes_encode(words).unwrap()
    );
}
