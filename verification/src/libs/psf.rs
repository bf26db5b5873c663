//! Reading PSF fonts.

pub mod ascii_psf_font;
