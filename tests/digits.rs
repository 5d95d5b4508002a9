use hnet::{load_digits, train_network_digits, ArchiveLayout, LoadError};

fn archives(size: usize, labels: &[u8]) -> (Vec<u8>, Vec<u8>) {
    let mut images = vec![0xAA; 16];
    for k in 0..labels.len() {
        for p in 0..size {
            images.push((k * 10 + p) as u8);
        }
    }
    let mut label_bytes = vec![0x55; 8];
    label_bytes.extend_from_slice(labels);
    (images, label_bytes)
}

#[test]
fn splits_training_and_testing_items() {
    let (images, labels) = archives(3, &[4, 9, 0, 7, 2]);
    let layout = ArchiveLayout { image_size: 3, train_count: 3, test_count: 2 };
    let (training, testing) = load_digits(&images, &labels, layout).unwrap();
    assert_eq!(training.len(), 3);
    assert_eq!(testing.len(), 2);
    assert_eq!(training[0].pixels, vec![0, 1, 2]);
    assert_eq!(training[0].label, 4);
    assert_eq!(training[2].pixels, vec![20, 21, 22]);
    assert_eq!(testing[0].pixels, vec![30, 31, 32]);
    assert_eq!(testing[0].label, 7);
    assert_eq!(testing[1].label, 2);
}

#[test]
fn trailing_bytes_are_ignored() {
    let (images, labels) = archives(2, &[1, 2, 3]);
    let layout = ArchiveLayout { image_size: 2, train_count: 1, test_count: 1 };
    let (training, testing) = load_digits(&images, &labels, layout).unwrap();
    assert_eq!(training[0].pixels, vec![0, 1]);
    assert_eq!(testing[0].pixels, vec![10, 11]);
    assert_eq!(testing[0].label, 2);
}

#[test]
fn short_image_archive() {
    let (images, labels) = archives(3, &[1, 2]);
    let layout = ArchiveLayout { image_size: 3, train_count: 2, test_count: 1 };
    assert_eq!(
        load_digits(&images, &labels, layout),
        Err(LoadError::ImagesTooShort { found: 22 })
    );
}

#[test]
fn short_label_archive() {
    let (images, mut labels) = archives(3, &[1, 2, 3]);
    labels.pop();
    let layout = ArchiveLayout { image_size: 3, train_count: 2, test_count: 1 };
    assert_eq!(
        load_digits(&images, &labels, layout),
        Err(LoadError::LabelsTooShort { found: 10 })
    );
}

#[test]
fn first_label_out_of_range() {
    let (images, labels) = archives(1, &[1, 12, 3, 200]);
    let layout = ArchiveLayout { image_size: 1, train_count: 2, test_count: 2 };
    assert_eq!(
        load_digits(&images, &labels, layout),
        Err(LoadError::LabelOutOfRange { index: 1, label: 12 })
    );
}

#[test]
fn huge_layout_is_too_short_not_overflow() {
    let (images, labels) = archives(1, &[1]);
    let layout = ArchiveLayout { image_size: usize::MAX, train_count: 2, test_count: 0 };
    assert_eq!(
        load_digits(&images, &labels, layout),
        Err(LoadError::ImagesTooShort { found: 17 })
    );
}

#[test]
fn digits_archives_too_short() {
    let (images, labels) = archives(784, &[1, 2, 3]);
    assert_eq!(
        train_network_digits(&images, &labels).unwrap_err(),
        LoadError::ImagesTooShort { found: 16 + 3 * 784 }
    );
}

#[test]
fn digits_task_settings_and_split() {
    let count = 60000;
    let mut images = vec![0u8; 16 + count * 784];
    images[16 + 50000 * 784] = 255;
    let mut labels = vec![0u8; 8 + count];
    labels[8 + 49999] = 9;
    labels[8 + 50000] = 5;
    let task = train_network_digits(&images, &labels).unwrap();
    assert_eq!(task.layer_sizes, vec![784, 100, 45, 10]);
    assert_eq!(task.epochs, 50);
    assert_eq!(task.batch_size, 10);
    assert_eq!(task.training.len(), 50000);
    assert_eq!(task.testing.len(), 10000);
    assert_eq!(task.training[49999].label, 9);
    assert_eq!(task.testing[0].label, 5);
    assert_eq!(task.testing[0].pixels[0], 255);
    assert_eq!(task.testing[0].pixels.len(), 784);
}
