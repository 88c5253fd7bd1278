# Pasture Panda

The conversion core of a small desktop batch image converter, verified with
[Verus](https://github.com/verus-lang/verus), and the application around it.

Drop a pile of images on the window, pick an output format, hit Convert: the library decides
where each file goes, decodes and turns the picture, encodes it, carries Exif and ICC data
over, and says which files are written, renamed and removed, in which order. It performs no
file operation itself. Its caller answers whether a file exists, hands in the bytes of a
file, performs one operation at a time and reports how it went.

## Layout

```
src/text.rs           numerals, letter case, comparison of strings
src/path.rs           slash-separated paths held as text
src/model.rs          options, results and descriptions
src/format.rs         the formats on offer
src/planning.rs       choosing a destination for every input of a batch
src/planning_laws.rs  what holds of every plan
src/staging.rs        where an encode is staged before it takes its place
src/picture.rs        decoded pictures: size, colour type, orientation
src/decode.rs         reading image files that are held in memory
src/encode.rs         encoding pictures
src/container.rs      the parts of JPEG, PNG and WebP files
src/metadata.rs       carrying Exif and ICC blocks over
src/convert.rs        converting one image, step by step
src/convert_laws.rs   what conversions do to files
src/batch.rs          results of a batch
app/                  file access, the window's commands and the program
tests/                the library on concrete values
```

## What is proved, and what is not

Every function of `src/` states what it returns, and Verus checks it against its body. What
holds across functions stands in public proof functions, whose names start with `law_`:
destinations of a batch are distinct paths even if files come and go while they are chosen, no
file on disk is chosen unless originals are to be replaced, planning comes to an end, a failed
conversion leaves every file but its own staging file as it was, an original is removed only
once its replacement is in place, an input that fails planning changes no other destination, a
file holds the Exif and ICC blocks that were put into it beside all its other parts, a decoder
that accepts an encoded file finds in it the blocks that such files have room for, and so on.

Decoding and encoding pixels, and taking containers apart and putting them together, is the
work of the `image`, `webp` and `img-parts` crates. They are called through small functions
marked `#[verifier::external_body]`. What those claim of the crates stands in their contracts
and doc comments and is not proved. Results that take pages to state have a name there, such
as `stored_picture` or `jpeg_file`, and the contracts of the library speak of the names. Where
a result also rests on the machine, the name takes the machine as one more argument, and the
contracts say that some machine gives the result.

Paths are those of Unix systems, and texts are Unicode.
