use image_loader::{Filter, Image, ImageError, ImageSource, ResourceLoader, Scaling};

/// Renders a 1 by 1 image whose first byte counts the renders so far, and
/// fails for paths listed in `failing`.
struct Counting {
    renders: Vec<(String, Scaling, Filter)>,
    failing: Vec<String>,
}

impl Counting {
    fn new() -> Self {
        Counting { renders: Vec::new(), failing: Vec::new() }
    }

    fn count(&self, path: &str) -> usize {
        self.renders.iter().filter(|r| r.0 == path).count()
    }
}

impl ImageSource for Counting {
    fn render(&mut self, path: &str, scaling: Scaling, filter: Filter) -> Result<Image, ImageError> {
        self.renders.push((path.to_string(), scaling, filter));
        if self.failing.iter().any(|p| p == path) {
            return Err(ImageError::DecodeFailed);
        }
        let n = self.renders.len() as u8;
        Ok(Image::from_pixels(1, 1, vec![n, 0, 0, 255]).unwrap())
    }
}

#[test]
fn second_load_returns_cached_image() {
    let mut cache = ResourceLoader::new();
    let mut src = Counting::new();
    let first = cache.load(&mut src, "a.png", Scaling::Fit, Filter::Good).unwrap().data().to_vec();
    let second =
        cache.load(&mut src, "a.png", Scaling::Fill, Filter::Nearest).unwrap().data().to_vec();
    assert_eq!(first, second);
    assert_eq!(first[0], 1);
    assert_eq!(src.renders, vec![("a.png".to_string(), Scaling::Fit, Filter::Good)]);
}

#[test]
fn each_path_rendered_once() {
    let mut cache = ResourceLoader::new();
    let mut src = Counting::new();
    for _ in 0..5 {
        for path in ["a.png", "b.png", "A.png"] {
            assert!(cache.load(&mut src, path, Scaling::Unscaled, Filter::Best).is_ok());
        }
    }
    assert_eq!(src.count("a.png"), 1);
    assert_eq!(src.count("b.png"), 1);
    assert_eq!(src.count("A.png"), 1);
    assert_eq!(src.renders.len(), 3);
    assert_eq!(cache.load(&mut src, "A.png", Scaling::Fit, Filter::Fast).unwrap().data()[0], 3);
}

#[test]
fn decode_failure_is_not_cached() {
    let mut cache = ResourceLoader::new();
    let mut src = Counting::new();
    src.failing.push("bad.png".to_string());
    let r = cache.load(&mut src, "bad.png", Scaling::Fit, Filter::Good).map(|i| i.width());
    assert_eq!(r, Err(ImageError::DecodeFailed));
    assert!(!cache.contains("bad.png"));
    src.failing.clear();
    let img = cache.load(&mut src, "bad.png", Scaling::Fill, Filter::Best).unwrap();
    assert_eq!(img.data()[0], 2);
    assert_eq!(
        src.renders,
        vec![
            ("bad.png".to_string(), Scaling::Fit, Filter::Good),
            ("bad.png".to_string(), Scaling::Fill, Filter::Best),
        ]
    );
    assert!(cache.contains("bad.png"));
}

#[test]
fn store_answers_outcome_on_miss_and_entry_on_hit() {
    let mut cache = ResourceLoader::new();
    let r = cache.store("x", Err(ImageError::CompositeFailed)).map(|i| i.width());
    assert_eq!(r, Err(ImageError::CompositeFailed));
    assert!(!cache.contains("x"));
    let img = Image::from_pixels(1, 1, vec![7, 7, 7, 7]).unwrap();
    assert_eq!(cache.store("x", Ok(img)).unwrap().data(), &[7, 7, 7, 7]);
    let other = Image::from_pixels(1, 1, vec![9, 9, 9, 9]).unwrap();
    assert_eq!(cache.store("x", Ok(other)).unwrap().data(), &[7, 7, 7, 7]);
    let r = cache.store("x", Err(ImageError::DecodeFailed)).map(|i| i.data().to_vec());
    assert_eq!(r, Ok(vec![7, 7, 7, 7]));
}

#[test]
fn image_buffer_length_must_match_size() {
    let img = Image::from_pixels(2, 3, vec![0; 24]).unwrap();
    assert_eq!(img.width(), 2);
    assert_eq!(img.height(), 3);
    assert_eq!(img.data().len(), 24);
    assert!(Image::from_pixels(2, 3, vec![0; 23]).is_none());
    assert!(Image::from_pixels(2, 3, vec![0; 25]).is_none());
    assert!(Image::from_pixels(0, 3, Vec::new()).is_some());
}

#[test]
fn keys_match_case_sensitively() {
    let mut cache = ResourceLoader::new();
    let mut src = Counting::new();
    let lower = cache.load(&mut src, "img.png", Scaling::Fit, Filter::Good).unwrap().data()[0];
    let upper =
        cache.load(&mut src, "IMG.png", Scaling::Unscaled, Filter::Nearest).unwrap().data()[0];
    assert_eq!((lower, upper), (1, 2));
    assert_eq!(src.renders[1], ("IMG.png".to_string(), Scaling::Unscaled, Filter::Nearest));
    assert!(cache.contains("IMG.png"));
    assert!(!cache.contains("Img.png"));
}
