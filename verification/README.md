# gpt_sovits_rs

Text to speech with GPT-SoVITS models. The library under `src/` holds what can be proved, and
Verus proves it; the programs under `app/` add the tensors, the files and the network.

| Part | What it holds |
| --- | --- |
| `src/text_frontend` | text to phonemes: normalising, language detection, Chinese words, tone sandhi, pinyin, English, symbol identifiers |
| `src/inference` | splitting text, sampling options, retries, how chunks are judged and put together |
| `src/models` | where each weight of a model is found, the decoding loop, sampling, masks, grids and relative positions |
| `src/server` | request checks, request steps, headers, JSON answers, PCM and WAV framing, the cache of pipelines |
| `src/doctor.rs`, `src/convert.rs`, `src/cli.rs` | setup checks, checkpoint conversion, the command line |
| `src/tensor_file.rs`, `src/paths.rs` | what a model file holds, and the parts of paths |
| `app` | `gpt-sovits` and `gpt-sovits-convert` |
| `tests` | what the library does on given values |

Numbers in floating point are carried through the library by their bits (`float_bits::F32`): it
compares and moves them, and `app` does arithmetic on them.

The programs read `data/symbols_v2.json` and `data/cmudict.txt`.
